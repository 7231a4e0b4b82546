use vstd::prelude::*;

use vstd::arithmetic::div_mod::lemma_fundamental_div_mod_converse;

use crate::config::decimal_text;
use crate::decimal::{push_decimal, push_signed_decimal, signed_decimal_text};
use crate::error::BackendError;

verus! {

/// Size of a BITMAPINFOHEADER, the smallest DIB header.
pub const BITMAPINFOHEADER_SIZE: usize = 40;

/// Why a DIB could not be turned into a PNG.
#[derive(Debug, Clone, Copy, PartialEq, Eq, Structural)]
pub enum DibError {
    /// Fewer bytes than a BITMAPINFOHEADER.
    TooSmall,
    /// The width is zero or negative.
    InvalidWidth(i32),
    /// The height is zero.
    InvalidHeight,
    /// Neither 24 nor 32 bits per pixel.
    UnsupportedBitDepth(u16),
    /// The header claims more bytes than the buffer holds.
    HeaderSizeExceedsBuffer { header_size: u32, buffer_len: usize },
    /// The pixel data is shorter than the rows it must hold.
    PixelDataTooSmall { required: u128, actual: usize },
    /// The PNG encoder refused the image.
    Encoding,
}

impl DibError {
    /// A human-readable description of the error.
    pub fn message(&self) -> (r: String)
        ensures
            r@ == self.message_spec(),
    {
        match self {
            DibError::TooSmall => String::from_str("DIB data too small for BITMAPINFOHEADER"),
            DibError::InvalidWidth(width) => {
                let mut m = String::from_str("Invalid DIB width: ");
                push_signed_decimal(&mut m, *width);
                m
            },
            DibError::InvalidHeight => String::from_str("Invalid DIB height: 0"),
            DibError::UnsupportedBitDepth(bits) => {
                let mut m = String::from_str("Unsupported DIB bit depth: ");
                push_decimal(&mut m, *bits as u128);
                m.append("bpp (only 24/32 supported)");
                m
            },
            DibError::HeaderSizeExceedsBuffer { header_size, buffer_len } => {
                let mut m = String::from_str("DIB header_size (");
                push_decimal(&mut m, *header_size as u128);
                m.append(") exceeds buffer length (");
                push_decimal(&mut m, *buffer_len as u128);
                m.append(")");
                m
            },
            DibError::PixelDataTooSmall { required, actual } => {
                let mut m = String::from_str("DIB pixel data too small: need ");
                push_decimal(&mut m, *required);
                m.append(" bytes, got ");
                push_decimal(&mut m, *actual as u128);
                m
            },
            DibError::Encoding => String::from_str("PNG encoding failed"),
        }
    }

    /// The text that [`DibError::message`] returns.
    pub open spec fn message_spec(&self) -> Seq<char> {
        match self {
            DibError::TooSmall => "DIB data too small for BITMAPINFOHEADER"@,
            DibError::InvalidWidth(width) => "Invalid DIB width: "@ + signed_decimal_text(
                *width as int,
            ),
            DibError::InvalidHeight => "Invalid DIB height: 0"@,
            DibError::UnsupportedBitDepth(bits) => "Unsupported DIB bit depth: "@ + decimal_text(
                *bits as nat,
            ) + "bpp (only 24/32 supported)"@,
            DibError::HeaderSizeExceedsBuffer { header_size, buffer_len } => "DIB header_size ("@
                + decimal_text(*header_size as nat) + ") exceeds buffer length ("@ + decimal_text(
                *buffer_len as nat,
            ) + ")"@,
            DibError::PixelDataTooSmall { required, actual } => "DIB pixel data too small: need "@
                + decimal_text(*required as nat) + " bytes, got "@ + decimal_text(*actual as nat),
            DibError::Encoding => "PNG encoding failed"@,
        }
    }
}

/// Little-endian `u16` at `off`.
pub open spec fn le_u16(b: Seq<u8>, off: int) -> nat {
    (b[off] as nat + 256 * b[off + 1] as nat) as nat
}

/// Little-endian `u32` at `off`.
pub open spec fn le_u32(b: Seq<u8>, off: int) -> nat {
    (b[off] as nat + 256 * b[off + 1] as nat + 65536 * b[off + 2] as nat + 16777216 * b[off
        + 3] as nat) as nat
}

/// Little-endian two's-complement `i32` at `off`.
pub open spec fn le_i32(b: Seq<u8>, off: int) -> int {
    if le_u32(b, off) >= 0x8000_0000 {
        le_u32(b, off) - 0x1_0000_0000
    } else {
        le_u32(b, off) as int
    }
}

/// The header size field (biSize).
pub open spec fn dib_header_size(d: Seq<u8>) -> nat {
    le_u32(d, 0)
}

/// The width field (biWidth).
pub open spec fn dib_width(d: Seq<u8>) -> int {
    le_i32(d, 4)
}

/// The height field (biHeight); negative for top-down rows.
pub open spec fn dib_height(d: Seq<u8>) -> int {
    le_i32(d, 8)
}

/// The bits-per-pixel field (biBitCount).
pub open spec fn dib_bit_count(d: Seq<u8>) -> nat {
    le_u16(d, 14)
}

/// Bytes per DIB row: the bits of one row rounded up to a multiple of 4 bytes.
pub open spec fn row_stride(width: nat, bit_count: nat) -> nat {
    ((width * bit_count + 31) / 32 * 4) as nat
}

/// The number of rows, whatever their order.
pub open spec fn abs_height(h: int) -> nat {
    if h < 0 {
        (-h) as nat
    } else {
        h as nat
    }
}

/// Bytes per pixel for a supported bit count (3 or 4).
pub open spec fn channels(bit_count: nat) -> nat {
    bit_count / 8
}

/// How a DIB of bytes `d` fails to convert, or `Ok` when it is well-formed.
pub open spec fn dib_check(d: Seq<u8>) -> Result<(), DibError> {
    if d.len() < 40 {
        Err(DibError::TooSmall)
    } else if dib_width(d) <= 0 {
        Err(DibError::InvalidWidth(dib_width(d) as i32))
    } else if dib_height(d) == 0 {
        Err(DibError::InvalidHeight)
    } else if dib_bit_count(d) != 24 && dib_bit_count(d) != 32 {
        Err(DibError::UnsupportedBitDepth(dib_bit_count(d) as u16))
    } else if dib_header_size(d) > d.len() {
        Err(
            DibError::HeaderSizeExceedsBuffer {
                header_size: dib_header_size(d) as u32,
                buffer_len: d.len() as usize,
            },
        )
    } else if d.len() - dib_header_size(d) < abs_height(dib_height(d)) * row_stride(
        dib_width(d) as nat,
        dib_bit_count(d),
    ) {
        Err(
            DibError::PixelDataTooSmall {
                required: (abs_height(dib_height(d)) * row_stride(
                    dib_width(d) as nat,
                    dib_bit_count(d),
                )) as u128,
                actual: (d.len() - dib_header_size(d)) as usize,
            },
        )
    } else {
        Ok(())
    }
}

/// A DIB row holds `width * bit_count` bits rounded up to whole 32-bit words:
/// its stride is the least multiple of 4 bytes that holds the row's pixels,
/// so a row whose pixel bytes already fill whole words has no padding.
pub proof fn law_row_stride_is_least_padded_length(width: nat, bit_count: nat)
    requires
        bit_count == 24 || bit_count == 32,
    ensures
        row_stride(width, bit_count) % 4 == 0,
        row_stride(width, bit_count) * 8 >= width * bit_count,
        row_stride(width, bit_count) * 8 < width * bit_count + 32,
        (width * bit_count) % 32 == 0 ==> row_stride(width, bit_count) * 8 == width * bit_count,
{
    let x = width * bit_count;
    let q = (x + 31) / 32;
    assert(row_stride(width, bit_count) == q * 4);
    assert(32 * q <= x + 31 && x + 31 < 32 * q + 32) by (nonlinear_arith)
        requires
            q == (x + 31) / 32,
            x >= 0,
    ;
    assert((q * 4) % 4 == 0) by (nonlinear_arith);
    assert(x % 32 == 0 ==> 32 * q == x) by (nonlinear_arith)
        requires
            32 * q <= x + 31,
            x + 31 < 32 * q + 32,
    ;
}

/// Whether `d` has a BITMAPINFOHEADER with a positive width, a non-zero
/// height, 24 or 32 bits per pixel, and a header size within the buffer.
pub open spec fn dib_header_ok(d: Seq<u8>) -> bool {
    &&& d.len() >= 40
    &&& dib_width(d) > 0
    &&& dib_height(d) != 0
    &&& (dib_bit_count(d) == 24 || dib_bit_count(d) == 32)
    &&& dib_header_size(d) <= d.len()
}

/// When a row's pixels fill whole 4-byte words (24 bits per pixel and a width
/// divisible by 4, or 32 bits per pixel), a DIB converts exactly when the
/// bytes after the header hold `|height|` rows of `width` pixels, no more
/// padding required.
pub proof fn law_unpadded_rows_need_only_their_pixels(d: Seq<u8>)
    requires
        dib_header_ok(d),
        dib_bit_count(d) == 32 || dib_width(d) % 4 == 0,
    ensures
        dib_check(d) is Ok <==> d.len() - dib_header_size(d) >= abs_height(dib_height(d))
            * dib_width(d) * (dib_bit_count(d) / 8),
{
    let w = dib_width(d) as nat;
    let b = dib_bit_count(d);
    law_row_stride_is_least_padded_length(w, b);
    assert((w * b) % 32 == 0) by (nonlinear_arith)
        requires
            b == 32 || (b == 24 && w % 4 == 0),
    ;
    assert(row_stride(w, b) == w * (b / 8)) by (nonlinear_arith)
        requires
            row_stride(w, b) * 8 == w * b,
            b == 24 || b == 32,
    ;
    let h = abs_height(dib_height(d));
    assert(h * row_stride(w, b) == h * w * (b / 8)) by (nonlinear_arith)
        requires
            row_stride(w, b) == w * (b / 8),
    ;
}

/// Byte `k` of the RGB(A) image, rows top first: output channel 0, 1, 2 take
/// the DIB's red, green and blue (stored as blue, green, red), channel 3 alpha.
pub open spec fn rgb_byte(
    d: Seq<u8>,
    header_size: nat,
    width: nat,
    height: nat,
    ch: nat,
    stride: nat,
    top_down: bool,
    k: int,
) -> u8 {
    let row = k / (width * ch) as int;
    let rem = k % (width * ch) as int;
    let x = rem / ch as int;
    let j = rem % ch as int;
    let src_row = if top_down {
        row
    } else {
        height - 1 - row
    };
    let px = header_size + src_row * stride + x * ch;
    let src = if j == 0 {
        px + 2
    } else if j == 2 {
        px
    } else {
        px + j
    };
    d[src]
}

/// The decoded image of a well-formed DIB.
pub struct DibImage {
    pub width: u32,
    pub height: u32,
    /// Four channels (RGBA) rather than three (RGB).
    pub alpha: bool,
    /// Rows top first, 3 or 4 bytes per pixel, no padding.
    pub pixels: Vec<u8>,
}

/// The RGB(A) bytes of a well-formed DIB `d`.
pub open spec fn dib_pixels(d: Seq<u8>) -> Seq<u8> {
    let w = dib_width(d) as nat;
    let h = abs_height(dib_height(d));
    let bits = dib_bit_count(d);
    let ch = channels(bits);
    Seq::new(
        w * h * ch,
        |k: int|
            rgb_byte(
                d,
                dib_header_size(d),
                w,
                h,
                ch,
                row_stride(w, bits),
                dib_height(d) < 0,
                k,
            ),
    )
}

/// The converted image is the DIB's pixels, rows top first and colours in
/// RGB(A) order: pixel `(x, y)` of the image (counted from the top) comes from
/// row `y` of a top-down DIB, or row `height - 1 - y` of a bottom-up one, and
/// its red, green, blue and alpha bytes are the DIB's bytes 2, 1, 0 and 3 of
/// that pixel.
pub proof fn law_pixels_are_the_dib_rows_in_rgb_order(d: Seq<u8>, x: int, y: int, j: int)
    requires
        dib_check(d) is Ok,
        0 <= x < dib_width(d),
        0 <= y < abs_height(dib_height(d)),
        0 <= j < dib_bit_count(d) / 8,
    ensures
        ({
            let w = dib_width(d);
            let h = abs_height(dib_height(d)) as int;
            let ch = (dib_bit_count(d) / 8) as int;
            let src_row = if dib_height(d) < 0 {
                y
            } else {
                h - 1 - y
            };
            let px = dib_header_size(d) + src_row * row_stride(w as nat, dib_bit_count(d)) + x * ch;
            let src = if j == 0 {
                px + 2
            } else if j == 1 {
                px + 1
            } else if j == 2 {
                px
            } else {
                px + 3
            };
            dib_pixels(d).len() == w * h * ch && dib_pixels(d)[(y * w + x) * ch + j] == d[src]
        }),
{
    let w = dib_width(d);
    let h = abs_height(dib_height(d)) as int;
    let ch = (dib_bit_count(d) / 8) as int;
    lemma_index_split(y, x, j, w, ch);
    assert((y * w + x) * ch + j == y * (w * ch) + x * ch + j) by (nonlinear_arith);
    assert(0 <= (y * w + x) * ch + j < w * h * ch) by (nonlinear_arith)
        requires
            0 <= x < w,
            0 <= y < h,
            0 <= j < ch,
    ;
    assert(w * h * ch == (w as nat) * abs_height(dib_height(d)) * channels(dib_bit_count(d)));
}

fn read_u16_le(b: &[u8], off: usize) -> (r: u16)
    requires
        off + 2 <= b@.len(),
    ensures
        r as nat == le_u16(b@, off as int),
{
    b[off] as u16 + (b[off + 1] as u16) * 256
}

fn read_u32_le(b: &[u8], off: usize) -> (r: u32)
    requires
        off + 4 <= b@.len(),
    ensures
        r as nat == le_u32(b@, off as int),
{
    b[off] as u32 + (b[off + 1] as u32) * 256 + (b[off + 2] as u32) * 65536 + (b[off + 3] as u32)
        * 16777216
}

fn read_i32_le(b: &[u8], off: usize) -> (r: i32)
    requires
        off + 4 <= b@.len(),
    ensures
        r as int == le_i32(b@, off as int),
{
    let u = read_u32_le(b, off);
    if u >= 0x8000_0000 {
        ((u - 0x8000_0000) as i32) + i32::MIN
    } else {
        u as i32
    }
}

proof fn lemma_index_split(y: int, x: int, j: int, w: int, ch: int)
    requires
        0 <= y,
        0 <= x < w,
        0 <= j < ch,
    ensures
        (y * (w * ch) + x * ch + j) / (w * ch) == y,
        (y * (w * ch) + x * ch + j) % (w * ch) == x * ch + j,
        (x * ch + j) / ch == x,
        (x * ch + j) % ch == j,
{
    assert(0 <= x * ch + j < w * ch) by (nonlinear_arith)
        requires
            0 <= x < w,
            0 <= j < ch,
    ;
    lemma_fundamental_div_mod_converse(y * (w * ch) + x * ch + j, w * ch, y, x * ch + j);
    lemma_fundamental_div_mod_converse(x * ch + j, ch, x, j);
}

proof fn lemma_pixel_in_bounds(
    header_size: int,
    len: int,
    src_row: int,
    height: int,
    stride: int,
    x: int,
    width: int,
    ch: int,
)
    requires
        0 <= src_row < height,
        0 <= x < width,
        ch > 0,
        width * ch <= stride,
        header_size + height * stride <= len,
        0 <= header_size,
    ensures
        header_size + src_row * stride + x * ch + ch <= len,
        src_row * stride + stride <= height * stride,
{
    assert(src_row * stride + stride <= height * stride) by (nonlinear_arith)
        requires
            0 <= src_row < height,
            stride >= 0,
    ;
    assert(x * ch + ch <= width * ch) by (nonlinear_arith)
        requires
            0 <= x < width,
            ch > 0,
    ;
}

/// Decodes a DIB (BITMAPINFOHEADER + pixel data, 24bpp BGR or 32bpp BGRA,
/// rows padded to 4 bytes, bottom-up unless the height is negative) into
/// top-down RGB(A) rows.
pub fn dib_to_rgb(dib: &[u8]) -> (r: Result<DibImage, DibError>)
    ensures
        match r {
            Ok(img) => {
                &&& dib_check(dib@) is Ok
                &&& img.width == dib_width(dib@)
                &&& img.height == abs_height(dib_height(dib@))
                &&& img.alpha == (dib_bit_count(dib@) == 32)
                &&& img.pixels@ == dib_pixels(dib@)
            },
            Err(e) => dib_check(dib@) == Err::<(), DibError>(e),
        },
{
    let ghost d = dib@;
    assert(d.len() == dib.len());
    if dib.len() < BITMAPINFOHEADER_SIZE {
        return Err(DibError::TooSmall);
    }
    let header_size = read_u32_le(dib, 0);
    let width = read_i32_le(dib, 4);
    let height = read_i32_le(dib, 8);
    let bit_count = read_u16_le(dib, 14);

    if width <= 0 {
        return Err(DibError::InvalidWidth(width));
    }
    if height == 0 {
        return Err(DibError::InvalidHeight);
    }
    let (height_abs, top_down): (u32, bool) = if height < 0 {
        if height == i32::MIN {
            (0x8000_0000u32, true)
        } else {
            ((-height) as u32, true)
        }
    } else {
        (height as u32, false)
    };
    let width = width as u32;
    let ch: usize = if bit_count == 24 {
        3
    } else if bit_count == 32 {
        4
    } else {
        return Err(DibError::UnsupportedBitDepth(bit_count));
    };
    if header_size as usize > dib.len() {
        return Err(DibError::HeaderSizeExceedsBuffer { header_size, buffer_len: dib.len() });
    }
    let hs = header_size as usize;
    let pixel_len = dib.len() - hs;

    assert(width as u64 * bit_count as u64 <= 0x10_0000_0000u64) by (nonlinear_arith)
        requires
            width <= 0x8000_0000u32,
            bit_count <= 32u16,
    ;
    let row_bits: u64 = width as u64 * bit_count as u64;
    let stride64: u64 = (row_bits + 31) / 32 * 4;
    assert(height_abs as u128 * stride64 as u128 <= 0x1_0000_0000_0000_0000_0000_0000) by (nonlinear_arith)
        requires
            height_abs <= 0x8000_0000u32,
            stride64 <= 0x1_0000_0000_0000u64,
    ;
    let required: u128 = height_abs as u128 * stride64 as u128;
    if (pixel_len as u128) < required {
        return Err(DibError::PixelDataTooSmall { required, actual: pixel_len });
    }
    assert(dib_check(d) is Ok);

    let ghost w = width as nat;
    let ghost h = height_abs as nat;
    let ghost chn = ch as nat;
    let ghost stride_n = stride64 as nat;
    assert(chn == channels(bit_count as nat));
    assert(stride_n == row_stride(w, bit_count as nat));
    assert(w * chn <= stride_n) by (nonlinear_arith)
        requires
            stride_n == (w * (chn * 8) + 31) / 32 * 4,
            chn == 3 || chn == 4,
    ;
    assert(stride_n <= h * stride_n) by (nonlinear_arith)
        requires
            h >= 1,
    ;
    let stride = stride64 as usize;
    let width_us = width as usize;
    let height_us = height_abs as usize;
    let ghost spec_px = dib_pixels(d);

    let mut img: Vec<u8> = Vec::new();
    let mut y: usize = 0;
    while y < height_us
        invariant
            d == dib@,
            dib_check(d) is Ok,
            spec_px == dib_pixels(d),
            w == width as nat,
            w == width_us,
            w == dib_width(d),
            h == height_us,
            h == abs_height(dib_height(d)),
            h >= 1,
            top_down == (dib_height(d) < 0),
            chn == ch,
            chn == channels(dib_bit_count(d)),
            chn == 3 || chn == 4,
            stride_n == stride,
            stride_n == row_stride(w, dib_bit_count(d)),
            hs == dib_header_size(d),
            w * chn <= stride_n,
            hs + h * stride_n <= d.len(),
            d.len() <= usize::MAX,
            y <= h,
            img@.len() == y * (w * chn),
            forall|k: int| 0 <= k < img@.len() ==> img@[k] == #[trigger] spec_px[k],
        decreases height_us - y,
    {
        let src_y: usize = if top_down {
            y
        } else {
            height_us - 1 - y
        };
        proof {
            lemma_pixel_in_bounds(hs as int, d.len() as int, src_y as int, h as int, stride_n as int, 0, w as int, chn as int);
        }
        let row_start: usize = hs + src_y * stride;
        let mut x: usize = 0;
        while x < width_us
            invariant
                d == dib@,
                dib_check(d) is Ok,
                spec_px == dib_pixels(d),
                w == width_us,
                w == dib_width(d),
                h == abs_height(dib_height(d)),
                top_down == (dib_height(d) < 0),
                chn == ch,
                chn == channels(dib_bit_count(d)),
                chn == 3 || chn == 4,
                stride_n == stride,
                stride_n == row_stride(w, dib_bit_count(d)),
                hs == dib_header_size(d),
                w * chn <= stride_n,
                hs + h * stride_n <= d.len(),
                d.len() <= usize::MAX,
                y < h,
                src_y == if top_down { y as int } else { h - 1 - y },
                row_start == hs + src_y * stride_n,
                x <= w,
                img@.len() == y * (w * chn) + x * chn,
                forall|k: int| 0 <= k < img@.len() ==> img@[k] == #[trigger] spec_px[k],
            decreases width_us - x,
        {
            proof {
                lemma_pixel_in_bounds(hs as int, d.len() as int, src_y as int, h as int, stride_n as int, x as int, w as int, chn as int);
            }
            let px: usize = row_start + x * ch;
            let ghost base: int = y * (w * chn) + x * chn;
            proof {
                assert(base + chn <= w * h * chn) by (nonlinear_arith)
                    requires
                        base == y * (w * chn) + x * chn,
                        x < w,
                        y < h,
                ;
                lemma_index_split(y as int, x as int, 0, w as int, chn as int);
                lemma_index_split(y as int, x as int, 1, w as int, chn as int);
                lemma_index_split(y as int, x as int, 2, w as int, chn as int);
                assert(spec_px[base] == d[px + 2]);
                assert(spec_px[base + 1] == d[px + 1]);
                assert(spec_px[base + 2] == d[px as int]);
                if chn == 4 {
                    lemma_index_split(y as int, x as int, 3, w as int, chn as int);
                    assert(spec_px[base + 3] == d[px + 3]);
                }
            }
            img.push(dib[px + 2]);
            img.push(dib[px + 1]);
            img.push(dib[px]);
            if ch == 4 {
                img.push(dib[px + 3]);
            }
            proof {
                assert(img@.len() == base + chn);
                assert forall|k: int| 0 <= k < img@.len() implies img@[k] == #[trigger] spec_px[k] by {
                    if k >= base {
                        assert(spec_px[base + (k - base)] == spec_px[k]);
                    }
                }
                assert(img@.len() == y * (w * chn) + (x + 1) * chn) by (nonlinear_arith)
                    requires
                        img@.len() == y * (w * chn) + x * chn + chn,
                ;
            }
            x = x + 1;
        }
        proof {
            assert(img@.len() == (y + 1) * (w * chn)) by (nonlinear_arith)
                requires
                    img@.len() == y * (w * chn) + w * chn,
            ;
        }
        y = y + 1;
    }
    proof {
        assert(img@.len() == w * h * chn) by (nonlinear_arith)
            requires
                img@.len() == h * (w * chn),
        ;
        assert(img@ =~= spec_px);
    }
    Ok(DibImage { width, height: height_abs, alpha: ch == 4, pixels: img })
}

/// The PNG encoder's error.
#[verifier::external_type_specification]
#[verifier::external_body]
pub struct ExPngEncodingError(png::EncodingError);

/// The bytes that the `png` crate writes for an 8-bit RGB (or, with `alpha`,
/// RGBA) image of `width` x `height` pixels whose rows are `pixels`.
pub uninterp spec fn png_rgb8_encoding(width: u32, height: u32, alpha: bool, pixels: Seq<u8>) -> Seq<u8>;

/// Runs the `png` crate's encoder (`Encoder::new` on an in-memory buffer,
/// `set_color`, `set_depth(Eight)`, `write_header`, `write_image_data`, and the
/// writer's drop, which writes IEND) on `pixels`, which must hold exactly the
/// rows of the image. Claims that a run succeeds exactly when both dimensions
/// are non-zero (`write_header` refuses a zero width or height; RGB and RGBA at
/// 8 bits are valid combinations; `write_image_data` refuses only a buffer of
/// the wrong size; writing to a `Vec` does not fail), and that it then returns
/// the encoder's output for these arguments.
#[verifier::external_body]
fn encode_png_rgb8(width: u32, height: u32, alpha: bool, pixels: &Vec<u8>) -> (r: Result<Vec<u8>, png::EncodingError>)
    requires
        pixels@.len() == width * height * (if alpha {
            4int
        } else {
            3int
        }),
    ensures
        r is Ok <==> (width > 0 && height > 0),
        r matches Ok(bytes) ==> bytes@ == png_rgb8_encoding(width, height, alpha, pixels@),
{
    let mut out: Vec<u8> = Vec::new();
    {
        let mut encoder = png::Encoder::new(&mut out, width, height);
        encoder.set_color(if alpha { png::ColorType::Rgba } else { png::ColorType::Rgb });
        encoder.set_depth(png::BitDepth::Eight);
        let mut writer = encoder.write_header()?;
        writer.write_image_data(pixels)?;
    }
    Ok(out)
}

/// Convert a DIB (BITMAPINFOHEADER + pixel data) to PNG bytes.
/// Supports 24bpp (BGR) and 32bpp (BGRA).
pub fn dib_to_png(dib: &[u8]) -> (r: Result<Vec<u8>, DibError>)
    ensures
        r is Ok <==> dib_check(dib@) is Ok,
        r matches Err(e) ==> dib_check(dib@) == Err::<(), DibError>(e),
        r matches Ok(bytes) ==> bytes@ == png_rgb8_encoding(
            dib_width(dib@) as u32,
            abs_height(dib_height(dib@)) as u32,
            dib_bit_count(dib@) == 32,
            dib_pixels(dib@),
        ),
{
    let image = match dib_to_rgb(dib) {
        Ok(image) => image,
        Err(e) => {
            return Err(e);
        },
    };
    assert(image.pixels@.len() == image.width * image.height * (if image.alpha {
        4int
    } else {
        3int
    }));
    match encode_png_rgb8(image.width, image.height, image.alpha, &image.pixels) {
        Ok(bytes) => Ok(bytes),
        Err(_) => Err(DibError::Encoding),
    }
}

/// The PNG file signature.
pub open spec fn png_signature() -> Seq<u8> {
    seq![0x89u8, 0x50, 0x4E, 0x47, 0x0D, 0x0A, 0x1A, 0x0A]
}

/// One step of the bitwise CRC-32 (reflected polynomial 0xEDB88320).
pub open spec fn crc_shift(c: u32) -> u32 {
    if c & 1 != 0 {
        (c >> 1) ^ 0xEDB88320u32
    } else {
        c >> 1
    }
}

/// `n` steps of [`crc_shift`].
pub open spec fn crc_shifts(c: u32, n: nat) -> u32
    decreases n,
{
    if n == 0 {
        c
    } else {
        crc_shift(crc_shifts(c, (n - 1) as nat))
    }
}

/// The CRC register after feeding `bytes` into register value `c`.
pub open spec fn crc_feed(c: u32, bytes: Seq<u8>) -> u32
    decreases bytes.len(),
{
    if bytes.len() == 0 {
        c
    } else {
        crc_shifts(crc_feed(c, bytes.drop_last()) ^ (bytes.last() as u32), 8)
    }
}

/// The CRC-32 (as PNG uses it) of `bytes`.
pub open spec fn crc32_spec(bytes: Seq<u8>) -> u32 {
    crc_feed(0xFFFF_FFFFu32, bytes) ^ 0xFFFF_FFFFu32
}

/// Big-endian bytes of `x`.
pub open spec fn be32(x: u32) -> Seq<u8> {
    seq![(x / 16777216) as u8, (x / 65536 % 256) as u8, (x / 256 % 256) as u8, (x % 256) as u8]
}

/// A PNG chunk: data length, type, data, and the CRC of type and data.
pub open spec fn png_chunk(chunk_type: Seq<u8>, data: Seq<u8>) -> Seq<u8> {
    be32(data.len() as u32) + chunk_type + data + be32(crc32_spec(chunk_type + data))
}

fn push_be32(buf: &mut Vec<u8>, x: u32)
    ensures
        final(buf)@ == old(buf)@ + be32(x),
{
    buf.push((x / 16777216) as u8);
    buf.push((x / 65536 % 256) as u8);
    buf.push((x / 256 % 256) as u8);
    buf.push((x % 256) as u8);
    assert(final(buf)@ =~= old(buf)@ + be32(x));
}

fn push_all(buf: &mut Vec<u8>, data: &[u8])
    ensures
        final(buf)@ == old(buf)@ + data@,
{
    let n = data.len();
    let mut i: usize = 0;
    while i < n
        invariant
            n == data@.len(),
            i <= n,
            buf@ == old(buf)@ + data@.take(i as int),
        decreases n - i,
    {
        buf.push(data[i]);
        assert(data@.take(i + 1) =~= data@.take(i as int).push(data@[i as int]));
        i = i + 1;
    }
    assert(data@.take(n as int) =~= data@);
}

/// Feeding two byte strings one after the other is feeding their concatenation.
proof fn lemma_crc_feed_append(c: u32, a: Seq<u8>, b: Seq<u8>)
    ensures
        crc_feed(crc_feed(c, a), b) == crc_feed(c, a + b),
    decreases b.len(),
{
    if b.len() > 0 {
        lemma_crc_feed_append(c, a, b.drop_last());
        assert((a + b).drop_last() =~= a + b.drop_last());
    } else {
        assert(a + b =~= a);
    }
}

/// Feeds `bytes` into the CRC register `crc`.
fn crc_update(crc: u32, bytes: &[u8]) -> (r: u32)
    ensures
        r == crc_feed(crc, bytes@),
{
    let mut c = crc;
    let n = bytes.len();
    let mut i: usize = 0;
    while i < n
        invariant
            n == bytes@.len(),
            i <= n,
            c == crc_feed(crc, bytes@.take(i as int)),
        decreases n - i,
    {
        let byte = bytes[i];
        assert(bytes@.take(i + 1).drop_last() =~= bytes@.take(i as int));
        let start = c ^ (byte as u32);
        c = start;
        let mut k: usize = 0;
        while k < 8
            invariant
                k <= 8,
                c == crc_shifts(start, k as nat),
            decreases 8 - k,
        {
            if c & 1 != 0 {
                c = (c >> 1) ^ 0xEDB88320u32;
            } else {
                c = c >> 1;
            }
            k = k + 1;
        }
        i = i + 1;
    }
    assert(bytes@.take(n as int) =~= bytes@);
    c
}

/// CRC-32 over a chunk's type and data.
pub fn crc32(chunk_type: &[u8; 4], data: &[u8]) -> (r: u32)
    ensures
        r == crc32_spec(chunk_type@ + data@),
{
    let after_type = crc_update(0xFFFF_FFFF, chunk_type.as_slice());
    let crc = crc_update(after_type, data);
    proof {
        lemma_crc_feed_append(0xFFFF_FFFFu32, chunk_type@, data@);
    }
    crc ^ 0xFFFF_FFFF
}

/// Appends one PNG chunk with type `chunk_type` and data `data` to `buf`.
pub fn write_chunk(buf: &mut Vec<u8>, chunk_type: &[u8; 4], data: &[u8])
    ensures
        final(buf)@ == old(buf)@ + png_chunk(chunk_type@, data@),
{
    let len = data.len() as u32;
    push_be32(buf, len);
    push_all(buf, chunk_type.as_slice());
    push_all(buf, data);
    let crc = crc32(chunk_type, data);
    push_be32(buf, crc);
    assert(final(buf)@ =~= old(buf)@ + png_chunk(chunk_type@, data@));
}

/// IHDR data of the minimal image: 1x1, 8-bit grayscale, deflate, no filter
/// method beyond the standard one, no interlace.
pub open spec fn minimal_ihdr() -> Seq<u8> {
    seq![0x00u8, 0x00, 0x00, 0x01, 0x00, 0x00, 0x00, 0x01, 0x08, 0x00, 0x00, 0x00, 0x00]
}

/// The one scanline of the minimal image: filter type None, then a single
/// white 8-bit gray sample.
pub open spec fn minimal_scanline() -> Seq<u8> {
    seq![0x00u8, 0xFF]
}

/// The Adler-32 sums `(a, b)` of `data`, each reduced modulo 65521.
pub open spec fn adler_sums(data: Seq<u8>) -> (nat, nat)
    decreases data.len(),
{
    if data.len() == 0 {
        (1, 0)
    } else {
        let (a, b) = adler_sums(data.drop_last());
        let a2 = (a + data.last() as nat) % 65521;
        (a2, (b + a2) % 65521)
    }
}

/// The Adler-32 checksum of `data`, as the four big-endian bytes that end a zlib stream.
pub open spec fn adler32_trailer(data: Seq<u8>) -> Seq<u8> {
    let (a, b) = adler_sums(data);
    be32((b * 65536 + a) as u32)
}

/// Whether `data` opens with a valid zlib header: deflate with a window of at
/// most 32 KiB, no preset dictionary, and a check value that makes the first
/// two bytes a multiple of 31.
pub open spec fn zlib_header_ok(data: Seq<u8>) -> bool {
    &&& data.len() >= 2
    &&& data[0] % 16 == 8
    &&& data[0] / 16 <= 7
    &&& (data[1] / 32) % 2 == 0
    &&& (data[0] * 256 + data[1]) % 31 == 0
}

/// IDAT data of the minimal image: a zlib stream (one fixed-Huffman deflate
/// block) of [`minimal_scanline`], ending with its Adler-32 checksum.
pub open spec fn minimal_idat() -> Seq<u8> {
    seq![0x78u8, 0xDA, 0x63, 0xF8, 0x0F, 0x00, 0x01, 0x01, 0x01, 0x00]
}

/// The bytes of the minimal 1x1 white PNG.
pub open spec fn minimal_png_spec() -> Seq<u8> {
    png_signature() + png_chunk(seq![0x49u8, 0x48, 0x44, 0x52], minimal_ihdr()) + png_chunk(
        seq![0x49u8, 0x44, 0x41, 0x54],
        minimal_idat(),
    ) + png_chunk(seq![0x49u8, 0x45, 0x4E, 0x44], Seq::<u8>::empty())
}

/// The minimal PNG is 67 bytes: the PNG signature, an IHDR chunk declaring a
/// 1x1, 8-bit grayscale image, an IDAT chunk holding a zlib stream with a
/// valid header whose trailer is the Adler-32 of the one white scanline, and
/// an empty IEND chunk, each chunk with its length and CRC.
pub proof fn law_minimal_png_layout(bytes: Seq<u8>)
    requires
        bytes == minimal_png_spec(),
    ensures
        bytes.len() == 67,
        bytes.subrange(0, 8) == png_signature(),
        bytes.subrange(8, 33) == png_chunk(seq![0x49u8, 0x48, 0x44, 0x52], minimal_ihdr()),
        bytes.subrange(33, 55) == png_chunk(seq![0x49u8, 0x44, 0x41, 0x54], minimal_idat()),
        bytes.subrange(55, 67) == png_chunk(seq![0x49u8, 0x45, 0x4E, 0x44], Seq::<u8>::empty()),
        bytes.subrange(16, 29) == minimal_ihdr(),
        zlib_header_ok(minimal_idat()),
        minimal_idat().subrange(6, 10) == adler32_trailer(minimal_scanline()),
{
    let sig = png_signature();
    let ihdr = png_chunk(seq![0x49u8, 0x48, 0x44, 0x52], minimal_ihdr());
    let idat = png_chunk(seq![0x49u8, 0x44, 0x41, 0x54], minimal_idat());
    let iend = png_chunk(seq![0x49u8, 0x45, 0x4E, 0x44], Seq::<u8>::empty());
    assert(ihdr.len() == 25);
    assert(idat.len() == 22);
    assert(iend.len() == 12);
    assert(bytes.subrange(0, 8) =~= sig);
    assert(bytes.subrange(8, 33) =~= ihdr);
    assert(bytes.subrange(33, 55) =~= idat);
    assert(bytes.subrange(55, 67) =~= iend);
    assert(bytes.subrange(16, 29) =~= ihdr.subrange(8, 21));
    assert(ihdr.subrange(8, 21) =~= minimal_ihdr());
    let s = minimal_scanline();
    let first = seq![0x00u8];
    assert(s.drop_last() =~= first);
    assert(first.drop_last() =~= Seq::<u8>::empty());
    assert(adler_sums(Seq::<u8>::empty()) == (1nat, 0nat));
    assert(adler_sums(first) == (1nat, 1nat));
    assert(adler_sums(s) == (256nat, 257nat));
    assert(minimal_idat().subrange(6, 10) =~= adler32_trailer(s));
}

/// Return a minimal valid 1x1 white PNG (67 bytes).
pub fn minimal_png() -> (r: Vec<u8>)
    ensures
        r@ == minimal_png_spec(),
{
    let mut buf: Vec<u8> = Vec::new();
    let signature: [u8; 8] = [0x89, 0x50, 0x4E, 0x47, 0x0D, 0x0A, 0x1A, 0x0A];
    push_all(&mut buf, signature.as_slice());

    let ihdr_type: [u8; 4] = [0x49, 0x48, 0x44, 0x52];
    let ihdr_data: [u8; 13] = [
        0x00, 0x00, 0x00, 0x01,  // width = 1
        0x00, 0x00, 0x00, 0x01,  // height = 1
        0x08,  // bit depth = 8
        0x00,  // color type = grayscale
        0x00,  // compression = deflate
        0x00,  // filter method
        0x00,  // interlace = none
    ];
    write_chunk(&mut buf, &ihdr_type, ihdr_data.as_slice());

    let idat_type: [u8; 4] = [0x49, 0x44, 0x41, 0x54];
    let idat_data: [u8; 10] = [
        0x78, 0xDA,  // zlib header: deflate, 32 KiB window
        0x63, 0xF8, 0x0F, 0x00,  // fixed-Huffman block: bytes 0x00 0xFF, end of block
        0x01, 0x01, 0x01, 0x00,  // Adler-32 of the scanline
    ];
    write_chunk(&mut buf, &idat_type, idat_data.as_slice());

    let iend_type: [u8; 4] = [0x49, 0x45, 0x4E, 0x44];
    let empty: [u8; 0] = [];
    write_chunk(&mut buf, &iend_type, empty.as_slice());

    assert(signature@ =~= png_signature());
    assert(ihdr_type@ =~= seq![0x49u8, 0x48, 0x44, 0x52]);
    assert(ihdr_data@ =~= minimal_ihdr());
    assert(idat_type@ =~= seq![0x49u8, 0x44, 0x41, 0x54]);
    assert(idat_data@ =~= minimal_idat());
    assert(iend_type@ =~= seq![0x49u8, 0x45, 0x4E, 0x44]);
    assert(empty@ =~= Seq::<u8>::empty());
    buf
}

/// Reads an image from the host clipboard as PNG bytes.
pub trait ClipboardBackend: Send + Sync {
    /// Whether `outcome` is what reading the clipboard can give.
    open spec fn reads(&self, outcome: Result<Vec<u8>, BackendError>) -> bool {
        true
    }

    fn read_image(&self) -> (r: Result<Vec<u8>, BackendError>)
        ensures
            self.reads(r),
    ;
}

/// Clipboard for platforms without one (and for tests): always holds a
/// 1x1 white PNG.
pub struct StubClipboard;

impl ClipboardBackend for StubClipboard {
    open spec fn reads(&self, outcome: Result<Vec<u8>, BackendError>) -> bool {
        outcome matches Ok(bytes) && bytes@ == minimal_png_spec()
    }

    fn read_image(&self) -> (r: Result<Vec<u8>, BackendError>)
        ensures
            r matches Ok(bytes) && bytes@ == minimal_png_spec(),
    {
        Ok(minimal_png())
    }
}

} // verus!
