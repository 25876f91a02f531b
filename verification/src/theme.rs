//! The palette of the lock screen and the compositing of glyph bitmaps onto a pixel buffer.

use vstd::arithmetic::div_mod::lemma_fundamental_div_mod_converse;
use vstd::arithmetic::mul::{lemma_mul_inequality, lemma_mul_is_distributive_add_other_way};
use vstd::prelude::*;

verus! {

/// A colour: red, green, blue.
pub type Rgb = (u8, u8, u8);

pub const BG: Rgb = (0x07, 0x07, 0x0b);

pub const TEXT: Rgb = (0xea, 0xea, 0xf2);

pub const MUTED: Rgb = (0x8a, 0x8a, 0x9c);

pub const FAINT: Rgb = (0x55, 0x55, 0x66);

pub const ACCENT: Rgb = (0xa7, 0x8b, 0xfa);

pub const GREEN: Rgb = (0x3f, 0xd0, 0x68);

pub const RED: Rgb = (0xf4, 0x53, 0x53);

pub const AMBER: Rgb = (0xf5, 0x9e, 0x0b);

/// The mean of `over` and `under` with weights `cov` and `255 - cov`, rounded to the nearest
/// integer (a tie cannot occur, 255 being odd).
pub open spec fn mix(over: u8, under: u8, cov: u8) -> u8 {
    ((over * cov + under * (255 - cov) + 127) / 255) as u8
}

/// What a channel of a pixel takes from the colour `c`: red, green, blue, then full opacity.
pub open spec fn channel(c: Rgb, index: int) -> u8 {
    if index == 0 {
        c.0
    } else if index == 1 {
        c.1
    } else if index == 2 {
        c.2
    } else {
        255
    }
}

/// The pixels `data` with the colour `c` laid over the pixel that starts at byte `i`, at coverage
/// `cov`.
pub open spec fn blended(data: Seq<u8>, i: int, c: Rgb, cov: u8) -> Seq<u8> {
    Seq::new(
        data.len(),
        |k: int|
            if i <= k < i + 4 {
                mix(channel(c, k - i), data[k], cov)
            } else {
                data[k]
            },
    )
}

proof fn lemma_mix_range(over: u8, under: u8, cov: u8)
    ensures
        0 <= over * cov + under * (255 - cov) <= 255 * 255,
        0 <= (over * cov + under * (255 - cov) + 127) / 255 <= 255,
        0 <= over * cov <= 255 * 255,
        0 <= under * (255 - cov) <= 255 * 255,
{
    assert(0 <= over * cov <= 255 * cov) by (nonlinear_arith)
        requires
            0 <= over <= 255,
            0 <= cov <= 255,
    ;
    assert(0 <= under * (255 - cov) <= 255 * (255 - cov)) by (nonlinear_arith)
        requires
            0 <= under <= 255,
            0 <= cov <= 255,
    ;
}

fn mix_channel(over: u8, under: u8, cov: u8) -> (mixed: u8)
    ensures
        mixed == mix(over, under, cov),
{
    proof {
        lemma_mix_range(over, under, cov);
    }
    let weighted: u32 = over as u32 * cov as u32 + under as u32 * (255 - cov as u32);
    ((weighted + 127) / 255) as u8
}

/// Nothing is painted where the coverage is zero.
pub proof fn lemma_mix_nothing(over: u8, under: u8)
    ensures
        mix(over, under, 0) == under,
{
}

/// Full coverage paints the colour itself.
pub proof fn lemma_mix_full(over: u8, under: u8)
    ensures
        mix(over, under, 255) == over,
{
}

/// Lays the colour `c` over the pixel that starts at byte `i`, at coverage `cov`.
pub fn blend(data: &mut [u8], i: usize, c: Rgb, cov: u8)
    requires
        cov != 0 ==> i + 3 < old(data)@.len(),
    ensures
        final(data)@ == blended(old(data)@, i as int, c, cov),
{
    if cov == 0 {
        proof {
            assert forall|k: int| 0 <= k < old(data)@.len() implies #[trigger] old(data)@[k]
                == blended(old(data)@, i as int, c, cov)[k] by {
                lemma_mix_nothing(channel(c, k - i), old(data)@[k]);
            }
        }
        return;
    }
    data[i] = mix_channel(c.0, data[i], cov);
    data[i + 1] = mix_channel(c.1, data[i + 1], cov);
    data[i + 2] = mix_channel(c.2, data[i + 2], cov);
    data[i + 3] = mix_channel(255, data[i + 3], cov);
}

/// A rasterized glyph: where its bitmap goes on the image and how much of each pixel it covers.
pub struct Glyph {
    pub left: i32,
    pub top: i32,
    pub width: usize,
    pub height: usize,
    /// Row-major, one byte per pixel.
    pub coverage: Vec<u8>,
}

impl Glyph {
    /// The bitmap has one byte for each pixel of its rectangle.
    pub open spec fn wf(self) -> bool {
        self.coverage@.len() == self.width * self.height
    }

    /// How much of the image's pixel `(x, y)` the glyph covers; nothing outside its rectangle.
    pub open spec fn coverage_at(self, x: int, y: int) -> u8 {
        if self.left <= x < self.left + self.width && self.top <= y < self.top + self.height {
            self.coverage@[(y - self.top) * self.width + (x - self.left)]
        } else {
            0
        }
    }
}

/// The column of the pixel that byte `k` of an image `width` pixels wide belongs to.
pub open spec fn column(k: int, width: int) -> int {
    (k / 4) % width
}

/// The row of the pixel that byte `k` of an image `width` pixels wide belongs to.
pub open spec fn row(k: int, width: int) -> int {
    (k / 4) / width
}

/// The image `data`, `width` pixels wide, with the glyph painted on it in the colour `c`: every
/// pixel is mixed with the colour by the glyph's coverage of it, and what falls outside the image
/// is cut off.
pub open spec fn with_glyph(data: Seq<u8>, width: int, glyph: Glyph, c: Rgb) -> Seq<u8> {
    Seq::new(
        data.len(),
        |k: int|
            mix(
                channel(c, k % 4),
                data[k],
                glyph.coverage_at(column(k, width), row(k, width)),
            ),
    )
}

/// Byte `k` belongs to the pixel `(x, y)` exactly when it lies in that pixel's four bytes.
proof fn lemma_pixel_bytes(k: int, x: int, y: int, width: int)
    requires
        0 <= k,
        0 <= x < width,
        0 <= y,
    ensures
        (column(k, width) == x && row(k, width) == y) <==> (y * width + x) * 4 <= k < (y * width
            + x) * 4 + 4,
{
    let p = y * width + x;
    if p * 4 <= k < p * 4 + 4 {
        assert(k / 4 == p);
        lemma_fundamental_div_mod_converse(p, width, y, x);
    }
    if column(k, width) == x && row(k, width) == y {
        vstd::arithmetic::div_mod::lemma_fundamental_div_mod(k / 4, width);
        assert(k / 4 == p) by {
            vstd::arithmetic::mul::lemma_mul_is_commutative(width, y);
        }
    }
}

/// The first byte of the pixel `(x, y)` lies with its three successors inside the image.
proof fn lemma_pixel_in_image(x: int, y: int, width: int, height: int)
    requires
        0 <= x < width,
        0 <= y < height,
    ensures
        0 <= y * width,
        y * width + x < width * height,
        (y * width + x) * 4 + 4 <= width * height * 4,
{
    lemma_mul_inequality(y + 1, height, width);
    lemma_mul_is_distributive_add_other_way(width, y, 1);
    vstd::arithmetic::mul::lemma_mul_is_commutative(width, height);
    vstd::arithmetic::mul::lemma_mul_nonnegative(y, width);
}

/// How far painting has come: `rows` whole rows of the glyph, and `cols` pixels of the next.
spec fn painted_so_far(glyph: Glyph, rows: int, cols: int, x: int, y: int) -> bool {
    y - glyph.top < rows || (y - glyph.top == rows && x - glyph.left < cols)
}

spec fn partly_painted(
    data: Seq<u8>,
    width: int,
    glyph: Glyph,
    c: Rgb,
    rows: int,
    cols: int,
    k: int,
) -> u8 {
    let x = column(k, width);
    let y = row(k, width);
    if painted_so_far(glyph, rows, cols, x, y) {
        mix(channel(c, k % 4), data[k], glyph.coverage_at(x, y))
    } else {
        data[k]
    }
}

/// Paints a glyph onto an image of `width` by `height` RGBA pixels, clipped to the image.
pub fn draw_glyph(data: &mut [u8], width: u32, height: u32, glyph: &Glyph, c: Rgb)
    requires
        old(data)@.len() == width * height * 4,
        glyph.wf(),
    ensures
        final(data)@ == with_glyph(old(data)@, width as int, *glyph, c),
{
    let ghost start = data@;
    let ghost w = width as int;
    proof {
        assert forall|k: int| 0 <= k < start.len() implies #[trigger] start[k] == partly_painted(
            start,
            w,
            *glyph,
            c,
            0,
            0,
            k,
        ) by {
            lemma_mix_nothing(channel(c, k % 4), start[k]);
        }
    }
    let mut r: usize = 0;
    while r < glyph.height
        invariant
            r <= glyph.height,
            glyph.wf(),
            w == width,
            start.len() == width * height * 4,
            data@.len() == start.len(),
            forall|k: int|
                0 <= k < start.len() ==> #[trigger] data@[k] == partly_painted(
                    start,
                    w,
                    *glyph,
                    c,
                    r as int,
                    0,
                    k,
                ),
        decreases glyph.height - r,
    {
        let mut col: usize = 0;
        while col < glyph.width
            invariant
                r < glyph.height,
                col <= glyph.width,
                glyph.wf(),
                w == width,
                start.len() == width * height * 4,
                data@.len() == start.len(),
                forall|k: int|
                    0 <= k < start.len() ==> #[trigger] data@[k] == partly_painted(
                        start,
                        w,
                        *glyph,
                        c,
                        r as int,
                        col as int,
                        k,
                    ),
            decreases glyph.width - col,
        {
            let x: i128 = glyph.left as i128 + col as i128;
            let y: i128 = glyph.top as i128 + r as i128;
            let ghost before = data@;
            proof {
                lemma_pixel_in_image(
                    col as int,
                    r as int,
                    glyph.width as int,
                    glyph.height as int,
                );
                assert(glyph.coverage.len() == glyph.width * glyph.height);
            }
            let cov: u8 = glyph.coverage[r * glyph.width + col];
            if 0 <= x && x < width as i128 && 0 <= y && y < height as i128 {
                proof {
                    lemma_pixel_in_image(x as int, y as int, w, height as int);
                    assert(data.len() == width * height * 4);
                }
                let at: usize = (y as usize * width as usize + x as usize) * 4;
                blend(data, at, c, cov);
                proof {
                    assert forall|k: int| 0 <= k < start.len() implies #[trigger] data@[k]
                        == partly_painted(start, w, *glyph, c, r as int, col + 1, k) by {
                        lemma_pixel_bytes(k, x as int, y as int, w);
                        assert(before[k] == partly_painted(
                            start,
                            w,
                            *glyph,
                            c,
                            r as int,
                            col as int,
                            k,
                        ));
                    }
                }
            } else {
                proof {
                    assert forall|k: int| 0 <= k < start.len() implies #[trigger] data@[k]
                        == partly_painted(start, w, *glyph, c, r as int, col + 1, k) by {
                        lemma_byte_in_image(k, w, height as int);
                    }
                }
            }
            col += 1;
        }
        proof {
            assert forall|k: int| 0 <= k < start.len() implies #[trigger] data@[k]
                == partly_painted(start, w, *glyph, c, r + 1, 0, k) by {
                lemma_mix_nothing(channel(c, k % 4), start[k]);
            }
        }
        r += 1;
    }
    proof {
        assert forall|k: int| 0 <= k < start.len() implies #[trigger] data@[k] == with_glyph(
            start,
            w,
            *glyph,
            c,
        )[k] by {
            lemma_mix_nothing(channel(c, k % 4), start[k]);
        }
    }
}

/// Every byte of an image belongs to a pixel of it.
proof fn lemma_byte_in_image(k: int, width: int, height: int)
    requires
        0 <= width,
        0 <= height,
        0 <= k < width * height * 4,
    ensures
        0 <= column(k, width) < width,
        0 <= row(k, width) < height,
{
    assert(width > 0) by (nonlinear_arith)
        requires
            0 <= width,
            0 <= height,
            0 < width * height * 4,
    ;
    let p = k / 4;
    assert(p < width * height);
    assert(0 <= p % width < width && 0 <= p / width < height) by (nonlinear_arith)
        requires
            0 < width,
            0 <= p < width * height,
    ;
}

/// A pixel that the glyph does not cover keeps its bytes, and one that it covers fully takes the
/// colour at full opacity.
pub proof fn lemma_glyph_extremes(data: Seq<u8>, width: int, glyph: Glyph, c: Rgb, k: int)
    requires
        0 <= k < data.len(),
    ensures
        glyph.coverage_at(column(k, width), row(k, width)) == 0 ==> with_glyph(
            data,
            width,
            glyph,
            c,
        )[k] == data[k],
        glyph.coverage_at(column(k, width), row(k, width)) == 255 ==> with_glyph(
            data,
            width,
            glyph,
            c,
        )[k] == channel(c, k % 4),
{
    lemma_mix_nothing(channel(c, k % 4), data[k]);
    lemma_mix_full(channel(c, k % 4), data[k]);
}

/// Whether `mixed` is the value nearest to the weighted mean of `over` and `under` with the weights
/// `cov` and `255 - cov`. There is exactly one such value.
pub open spec fn is_nearest_mean(mixed: u8, over: u8, under: u8, cov: u8) -> bool {
    -127 <= 255 * mixed - (over * cov + under * (255 - cov)) <= 127
}

/// Mixing gives the nearest value, and nothing else is the nearest value.
pub proof fn lemma_mix_is_nearest(over: u8, under: u8, cov: u8, other: u8)
    ensures
        is_nearest_mean(mix(over, under, cov), over, under, cov),
        is_nearest_mean(other, over, under, cov) ==> other == mix(over, under, cov),
{
    lemma_mix_range(over, under, cov);
}

/// Laying a colour over the pixel that starts at byte `i` mixes its four bytes with red, green, blue
/// and full opacity, and leaves every other byte.
pub proof fn lemma_blending_touches_one_pixel(data: Seq<u8>, i: int, c: Rgb, cov: u8)
    requires
        0 <= i,
        i + 3 < data.len(),
    ensures
        ({
            let after = blended(data, i, c, cov);
            &&& after.len() == data.len()
            &&& is_nearest_mean(after[i], c.0, data[i], cov)
            &&& is_nearest_mean(after[i + 1], c.1, data[i + 1], cov)
            &&& is_nearest_mean(after[i + 2], c.2, data[i + 2], cov)
            &&& is_nearest_mean(after[i + 3], 255, data[i + 3], cov)
            &&& forall|k: int|
                0 <= k < data.len() && !(i <= k <= i + 3) ==> #[trigger] after[k] == data[k]
        }),
{
    lemma_mix_range(c.0, data[i], cov);
    lemma_mix_range(c.1, data[i + 1], cov);
    lemma_mix_range(c.2, data[i + 2], cov);
    lemma_mix_range(255, data[i + 3], cov);
}

/// Painting a glyph keeps the image's size. The pixel in column `x` and row `y` is mixed with the
/// colour by the coverage that the glyph's bitmap has for it, and a pixel outside the glyph's
/// rectangle keeps its bytes.
pub proof fn lemma_glyph_is_painted_where_it_lies(
    data: Seq<u8>,
    width: int,
    height: int,
    glyph: Glyph,
    c: Rgb,
    x: int,
    y: int,
)
    requires
        0 <= x < width,
        0 <= y < height,
        data.len() == width * height * 4,
    ensures
        ({
            let after = with_glyph(data, width, glyph, c);
            let i = (y * width + x) * 4;
            let inside = glyph.left <= x < glyph.left + glyph.width && glyph.top <= y < glyph.top
                + glyph.height;
            let cov = glyph.coverage@[(y - glyph.top) * glyph.width + (x - glyph.left)];
            &&& after.len() == data.len()
            &&& 0 <= i
            &&& i + 3 < data.len()
            &&& inside ==> {
                &&& is_nearest_mean(after[i], c.0, data[i], cov)
                &&& is_nearest_mean(after[i + 1], c.1, data[i + 1], cov)
                &&& is_nearest_mean(after[i + 2], c.2, data[i + 2], cov)
                &&& is_nearest_mean(after[i + 3], 255, data[i + 3], cov)
            }
            &&& !inside ==> {
                &&& after[i] == data[i]
                &&& after[i + 1] == data[i + 1]
                &&& after[i + 2] == data[i + 2]
                &&& after[i + 3] == data[i + 3]
            }
        }),
{
    let i = (y * width + x) * 4;
    lemma_pixel_in_image(x, y, width, height);
    lemma_pixel_bytes(i, x, y, width);
    lemma_pixel_bytes(i + 1, x, y, width);
    lemma_pixel_bytes(i + 2, x, y, width);
    lemma_pixel_bytes(i + 3, x, y, width);
    let cov = glyph.coverage_at(x, y);
    lemma_mix_range(c.0, data[i], cov);
    lemma_mix_range(c.1, data[i + 1], cov);
    lemma_mix_range(c.2, data[i + 2], cov);
    lemma_mix_range(255, data[i + 3], cov);
    lemma_mix_nothing(c.0, data[i]);
    lemma_mix_nothing(c.1, data[i + 1]);
    lemma_mix_nothing(c.2, data[i + 2]);
    lemma_mix_nothing(255, data[i + 3]);
}

} // verus!
