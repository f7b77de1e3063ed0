//! The renderer with half blocks and 24-bit colours.

use vstd::prelude::*;
use vstd::string::StringExecFns;
use crate::config::cache::Image;
use crate::config::helio::FilterType;
use crate::util::numeral::{decimal, push_decimal};
use crate::util::text::push_chars;

verus! {

/// A pixel: red, green, blue, and alpha.
#[derive(Clone, Copy, Debug, PartialEq, Eq, Structural)]
pub struct Pixel {
    pub r: u8,
    pub g: u8,
    pub b: u8,
    pub a: u8,
}

/// Pixels in rows, from the top down.
pub struct Pixels {
    width: u32,
    height: u32,
    data: Vec<Pixel>,
}

/// The renderer, with the image that it is to draw.
pub struct Default {
    pub image: Image,
}

/// The colour of a pixel as an escape code writes it.
pub open spec fn triple(p: Pixel) -> Seq<char> {
    decimal(p.r as nat) + ";"@ + decimal(p.g as nat) + ";"@ + decimal(p.b as nat)
}

/// The text for a pixel above another: a space where both are clear; a
/// half block in the colour of the one that is not where one is clear; an
/// upper half block in the colour of the upper on the colour of the lower
/// where neither is.
pub open spec fn cell(upper: Pixel, lower: Pixel) -> Seq<char> {
    if upper.a == 0 && lower.a == 0 {
        " "@
    } else if upper.a == 0 {
        "\x1b[48;2;"@ + triple(lower) + "m▀"@
    } else if lower.a == 0 {
        "\x1b[38;2;"@ + triple(upper) + "m▄"@
    } else {
        "\x1b[38;2;"@ + triple(upper) + "m\x1b[48;2;"@ + triple(lower) + "m▀"@
    }
}

/// The pixel in column `x` of row `y`.
pub open spec fn pixel_at(data: Seq<Pixel>, width: int, x: int, y: int) -> Pixel {
    data[y * width + x]
}

/// The first `upto` cells of the line for the rows `y` and `y + 1`.
pub open spec fn line_cells(data: Seq<Pixel>, width: int, y: int, upto: int) -> Seq<char>
    decreases upto,
{
    if upto <= 0 {
        Seq::empty()
    } else {
        line_cells(data, width, y, upto - 1) + cell(
            pixel_at(data, width, upto - 1, y),
            pixel_at(data, width, upto - 1, y + 1),
        )
    }
}

/// The first `upto` lines, each ended by a reset and a line feed.
pub open spec fn drawn(data: Seq<Pixel>, width: int, upto: int) -> Seq<char>
    decreases upto,
{
    if upto <= 0 {
        Seq::empty()
    } else {
        drawn(data, width, upto - 1) + line_cells(data, width, 2 * (upto - 1), width)
            + "\x1b[0m\n"@
    }
}

/// The number of lines that pixels of the given height are drawn in: one
/// for every two rows, a last row without a partner left out.
pub open spec fn line_count(height: int) -> int {
    height / 2
}

impl Pixels {
    /// The number of columns.
    pub closed spec fn width(&self) -> u32 {
        self.width
    }

    /// The number of rows.
    pub closed spec fn height(&self) -> u32 {
        self.height
    }

    /// The pixels, row by row.
    pub closed spec fn data(&self) -> Seq<Pixel> {
        self.data@
    }

    #[verifier::type_invariant]
    spec fn filled(self) -> bool {
        self.data@.len() == self.width * self.height
    }

    /// Pixels of the given width and height; nothing where `data` holds
    /// another number of pixels than that.
    pub fn new(width: u32, height: u32, data: Vec<Pixel>) -> (r: Option<Self>)
        ensures
            match r {
                Some(p) => data@.len() == width * height && p.width() == width && p.height()
                    == height && p.data() == data@,
                None => data@.len() != width * height,
            },
    {
        assert(width * height <= 0xFFFF_FFFF * 0xFFFF_FFFF) by (nonlinear_arith)
            requires
                0 <= width <= 0xFFFF_FFFF,
                0 <= height <= 0xFFFF_FFFF,
        ;
        let expected: u64 = (width as u64) * (height as u64);
        if data.len() as u64 == expected {
            Some(Pixels { width, height, data })
        } else {
            None
        }
    }
}

/// Appends the colour of a pixel to `out`.
fn push_triple(out: &mut String, p: Pixel)
    ensures
        final(out)@ == old(out)@ + triple(p),
{
    let mut digits: Vec<char> = Vec::new();
    push_decimal(&mut digits, p.r as u128);
    let ghost red = digits@;
    assert(red == decimal(p.r as nat));
    let mut green: Vec<char> = Vec::new();
    push_decimal(&mut green, p.g as u128);
    assert(green@ == decimal(p.g as nat));
    let mut blue: Vec<char> = Vec::new();
    push_decimal(&mut blue, p.b as u128);
    assert(blue@ == decimal(p.b as nat));
    push_chars(out, &digits);
    out.append(";");
    push_chars(out, &green);
    out.append(";");
    push_chars(out, &blue);
    assert(out@ == old(out)@ + triple(p));
}

/// Appends the text for a pixel above another to `out`.
pub fn push_cell(out: &mut String, upper: Pixel, lower: Pixel)
    ensures
        final(out)@ == old(out)@ + cell(upper, lower),
{
    if upper.a == 0 && lower.a == 0 {
        out.append(" ");
    } else if upper.a == 0 {
        out.append("\x1b[48;2;");
        push_triple(out, lower);
        out.append("m▀");
        assert(out@ == old(out)@ + cell(upper, lower));
    } else if lower.a == 0 {
        out.append("\x1b[38;2;");
        push_triple(out, upper);
        out.append("m▄");
        assert(out@ == old(out)@ + cell(upper, lower));
    } else {
        out.append("\x1b[38;2;");
        push_triple(out, upper);
        out.append("m\x1b[48;2;");
        push_triple(out, lower);
        out.append("m▀");
        assert(out@ == old(out)@ + cell(upper, lower));
    }
}

impl Default {
    /// A renderer for this image.
    pub fn new(image: Image) -> (d: Self)
        ensures
            d.image == image,
    {
        Self { image }
    }

    /// Draws pixels as text: a line for every two rows, a cell for every
    /// column.
    pub fn render(pixels: &Pixels) -> (output: String)
        ensures
            output@ == drawn(
                pixels.data(),
                pixels.width() as int,
                line_count(pixels.height() as int),
            ),
    {
        proof {
            use_type_invariant(pixels);
        }
        let width = pixels.width as usize;
        let height = pixels.height as usize;
        let total = pixels.data.len();
        let ghost data = pixels.data@;
        let mut output = String::new();
        let mut line: usize = 0;
        while line < height / 2
            invariant
                line <= height / 2,
                width == pixels.width,
                height == pixels.height,
                data == pixels.data@,
                data.len() == width * height == total,
                output@ == drawn(data, width as int, line as int),
            decreases height / 2 - line,
        {
            let y = 2 * line;
            let ghost before = output@;
            let mut x: usize = 0;
            assert(output@ + line_cells(data, width as int, y as int, 0) == output@);
            while x < width
                invariant
                    x <= width,
                    y + 1 < height,
                    y == 2 * line,
                    data == pixels.data@,
                    data.len() == width * height == total,
                    output@ == before + line_cells(data, width as int, y as int, x as int),
                decreases width - x,
            {
                assert(0 <= y * width <= (y + 1) * width && (y + 1) * width + x < width * height)
                    by (nonlinear_arith)
                    requires
                        0 <= x < width,
                        0 <= y,
                        y + 1 < height,
                ;
                let upper = pixels.data[y * width + x];
                let lower = pixels.data[(y + 1) * width + x];
                push_cell(&mut output, upper, lower);
                assert((before + line_cells(data, width as int, y as int, x as int)) + cell(
                    upper,
                    lower,
                ) == before + line_cells(data, width as int, y as int, x + 1));
                x += 1;
            }
            output.append("\x1b[0m\n");
            assert(output@ == drawn(data, width as int, line + 1));
            line += 1;
        }
        output
    }
}

/// The channels of pixels, one behind the other: red, green, blue and alpha
/// of the first pixel, then of the second, and so on.
pub open spec fn channels(data: Seq<Pixel>) -> Seq<u8> {
    Seq::new(
        4 * data.len(),
        |i: int|
            if i % 4 == 0 {
                data[i / 4].r
            } else if i % 4 == 1 {
                data[i / 4].g
            } else if i % 4 == 2 {
                data[i / 4].b
            } else {
                data[i / 4].a
            },
    )
}

/// The pixels that a run of channels stands for.
pub open spec fn pixels_of(raw: Seq<u8>) -> Seq<Pixel> {
    Seq::new(
        (raw.len() / 4) as nat,
        |k: int| Pixel { r: raw[4 * k], g: raw[4 * k + 1], b: raw[4 * k + 2], a: raw[4 * k + 3] },
    )
}

impl Pixels {
    /// The channels of the pixels.
    pub fn bytes(&self) -> (raw: Vec<u8>)
        ensures
            raw@ == channels(self.data()),
    {
        let mut raw: Vec<u8> = Vec::new();
        let mut k: usize = 0;
        while k < self.data.len()
            invariant
                k <= self.data@.len(),
                raw@.len() == 4 * k,
                forall|i: int| 0 <= i < 4 * k ==> raw@[i] == channels(self.data@)[i],
            decreases self.data@.len() - k,
        {
            let p = self.data[k];
            raw.push(p.r);
            raw.push(p.g);
            raw.push(p.b);
            raw.push(p.a);
            k += 1;
        }
        assert(raw@ =~= channels(self.data@));
        raw
    }

    /// Pixels of the given width and height from their channels; nothing
    /// where `raw` holds another number of channels than four for each
    /// pixel.
    pub fn from_bytes(width: u32, height: u32, raw: &Vec<u8>) -> (r: Option<Self>)
        ensures
            match r {
                Some(p) => raw@.len() == 4 * (width * height) && p.width() == width && p.height()
                    == height && p.data() == pixels_of(raw@),
                None => raw@.len() != 4 * (width * height),
            },
    {
        assert(width * height <= 0xFFFF_FFFF * 0xFFFF_FFFF) by (nonlinear_arith)
            requires
                0 <= width <= 0xFFFF_FFFF,
                0 <= height <= 0xFFFF_FFFF,
        ;
        let expected: u128 = 4 * ((width as u128) * (height as u128));
        if raw.len() as u128 != expected {
            return None;
        }
        let total = raw.len();
        let count = total / 4;
        let mut data: Vec<Pixel> = Vec::new();
        let mut k: usize = 0;
        while k < count
            invariant
                k <= count,
                raw@.len() == 4 * count == total,
                data@.len() == k,
                forall|j: int| 0 <= j < k ==> #[trigger] data@[j] == pixels_of(raw@)[j],
            decreases count - k,
        {
            data.push(
                Pixel { r: raw[4 * k], g: raw[4 * k + 1], b: raw[4 * k + 2], a: raw[4 * k + 3] },
            );
            k += 1;
        }
        assert(data@ =~= pixels_of(raw@));
        Some(Pixels { width, height, data })
    }
}

/// Whether an image of the given width and height can be drawn `lines` lines
/// high: neither it nor the drawing is empty, the width of the drawing is a
/// 32-bit number, and the pixels at work fit in memory.
pub open spec fn drawable(width: u32, height: u32, lines: u32) -> bool {
    &&& width > 0 && height > 0 && lines > 0
    &&& 2 * width * lines <= u32::MAX
    &&& 16 * width * (2 * lines) <= isize::MAX
    &&& 4 * (2 * width * lines / (height as int)) * (2 * lines) <= isize::MAX
}

/// The width of the drawing: as many cells as keep the shape of the image
/// where a cell is half as wide as it is high.
pub open spec fn drawn_width(width: u32, height: u32, lines: u32) -> int {
    2 * width * lines / (height as int)
}

/// Calls `image::imageops::resize` on an RGBA image of eight bits a channel
/// that is built from `raw`, and returns the channels of the result. Of the
/// result only its size is claimed: the image that was asked for has
/// `nwidth` by `nheight` pixels of four channels. The images that are left
/// out are those that the function cannot allocate or sample: an image
/// without pixels, and sizes for which the buffers it makes (one of 32-bit
/// channels, `width` by `nheight`, and the result) are larger than a vector
/// can be.
#[verifier::external_body]
fn resize_bytes(
    raw: Vec<u8>,
    width: u32,
    height: u32,
    nwidth: u32,
    nheight: u32,
    filter: FilterType,
) -> (out: Vec<u8>)
    requires
        raw@.len() == 4 * (width * height),
        width > 0,
        height > 0,
        16 * width * nheight <= isize::MAX,
        4 * nwidth * nheight <= isize::MAX,
    ensures
        out@.len() == 4 * (nwidth * nheight),
{
    let kind = match filter {
        FilterType::Nearest => image::imageops::FilterType::Nearest,
        FilterType::Gaussian => image::imageops::FilterType::Gaussian,
        FilterType::Triangle => image::imageops::FilterType::Triangle,
        FilterType::CatmullRom => image::imageops::FilterType::CatmullRom,
        FilterType::Lanczos3 => image::imageops::FilterType::Lanczos3,
    };
    let source = image::RgbaImage::from_raw(width, height, raw).unwrap();
    image::imageops::resize(&source, nwidth, nheight, kind).into_raw()
}

impl Default {
    /// Whether `pixels` can be drawn `height` lines high.
    pub fn can_process(pixels: &Pixels, height: u32) -> (r: bool)
        ensures
            r == drawable(pixels.width(), pixels.height(), height),
    {
        let w = pixels.width as u128;
        let h = pixels.height as u128;
        let lines = height as u128;
        if w == 0 || h == 0 || lines == 0 {
            return false;
        }
        assert(2 * w * lines <= 2 * 0xFFFF_FFFF * 0xFFFF_FFFF) by (nonlinear_arith)
            requires
                0 <= w <= 0xFFFF_FFFF,
                0 <= lines <= 0xFFFF_FFFF,
        ;
        let doubled = 2 * w * lines;
        if doubled > 0xFFFF_FFFF {
            return false;
        }
        let nw = doubled / h;
        assert(16 * w * (2 * lines) == 16 * doubled) by (nonlinear_arith)
            requires
                doubled == 2 * w * lines,
        ;
        assert(nw * (2 * lines) <= 0xFFFF_FFFF * (2 * 0xFFFF_FFFF)) by (nonlinear_arith)
            requires
                0 <= nw <= 0xFFFF_FFFF,
                0 <= lines <= 0xFFFF_FFFF,
        ;
        let limit = isize::MAX as u128;
        assert(4 * (nw * (2 * lines)) == 4 * nw * (2 * lines)) by (nonlinear_arith);
        assert(nw == 2 * pixels.width() * height / (pixels.height() as int));
        16 * doubled <= limit && 4 * (nw * (2 * lines)) <= limit
    }

    /// Draws `pixels` as text, `height` lines high: the pixels are resized
    /// to twice as many rows, and to the width that keeps their shape, and
    /// the result is drawn. What the resizing makes of the pixels is not
    /// stated; the text is the drawing of some pixels of that size.
    pub fn process(pixels: &Pixels, height: u32, filter: FilterType) -> (output: String)
        requires
            drawable(pixels.width(), pixels.height(), height),
        ensures
            exists|data: Seq<Pixel>|
                data.len() == drawn_width(pixels.width(), pixels.height(), height) * (2 * height)
                    && output@ == #[trigger] drawn(
                    data,
                    drawn_width(pixels.width(), pixels.height(), height),
                    height as int,
                ),
    {
        proof {
            use_type_invariant(pixels);
        }
        let w = pixels.width;
        let h = pixels.height;
        let doubled: u64 = 2 * (w as u64) * (height as u64);
        let nwidth: u32 = (doubled / (h as u64)) as u32;
        assert(2 * height <= 2 * w * height) by (nonlinear_arith)
            requires
                w >= 1,
                height >= 0,
        ;
        let nheight: u32 = height * 2;
        assert(4 * nwidth * nheight == 4 * (2 * w * height / (h as int)) * (2 * height))
            by (nonlinear_arith)
            requires
                nwidth == 2 * w * height / (h as int),
                nheight == 2 * height,
        ;
        assert(16 * w * nheight == 16 * w * (2 * height)) by (nonlinear_arith)
            requires
                nheight == 2 * height,
        ;
        let raw = pixels.bytes();
        assert(raw@.len() == 4 * (w * h));
        let out = resize_bytes(raw, w, h, nwidth, nheight, filter);
        let resized = Pixels::from_bytes(nwidth, nheight, &out).unwrap();
        let output = Self::render(&resized);
        assert(line_count(nheight as int) == height);
        assert(nwidth * nheight == drawn_width(w, h, height) * (2 * height)) by (nonlinear_arith)
            requires
                nwidth == drawn_width(w, h, height),
                nheight == 2 * height,
        ;
        assert(output@ == drawn(resized.data(), drawn_width(w, h, height), height as int));
        output
    }

    /// Draws `pixels` as text if they can be drawn `height` lines high.
    pub fn try_process(pixels: &Pixels, height: u32, filter: FilterType) -> (output: Option<
        String,
    >)
        ensures
            output is Some <==> drawable(pixels.width(), pixels.height(), height),
            output matches Some(text) ==> exists|data: Seq<Pixel>|
                data.len() == drawn_width(pixels.width(), pixels.height(), height) * (2 * height)
                    && text@ == #[trigger] drawn(
                    data,
                    drawn_width(pixels.width(), pixels.height(), height),
                    height as int,
                ),
    {
        if Self::can_process(pixels, height) {
            Some(Self::process(pixels, height, filter))
        } else {
            None
        }
    }
}

} // verus!
