//! The condition grades a scanned card can get, and the integer samples of a
//! card photo that grading scores: its corner squares, its border pixels and
//! the local noise of its inner pixels.

use vstd::prelude::*;

use crate::collection::{condition_label, Condition};

verus! {

/// The grade a scan gives a card, from best to worst.
#[derive(Debug, Clone, Copy, PartialEq, Eq, Structural)]
pub enum Grade {
    NearMint,
    LightlyPlayed,
    ModeratelyPlayed,
    HeavilyPlayed,
    Poor,
}

/// The collection condition a grade corresponds to.
pub open spec fn grade_condition(g: Grade) -> Condition {
    match g {
        Grade::NearMint => Condition::NearMint,
        Grade::LightlyPlayed => Condition::LightlyPlayed,
        Grade::ModeratelyPlayed => Condition::ModeratelyPlayed,
        Grade::HeavilyPlayed => Condition::HeavilyPlayed,
        Grade::Poor => Condition::Poor,
    }
}

impl Grade {
    /// The display name of the grade, the same as that of the corresponding
    /// collection condition.
    pub fn label(&self) -> (res: &'static str)
        ensures
            res@ == condition_label(grade_condition(*self)),
    {
        match self {
            Grade::NearMint => "Near Mint",
            Grade::LightlyPlayed => "Lightly Played",
            Grade::ModeratelyPlayed => "Moderately Played",
            Grade::HeavilyPlayed => "Heavily Played",
            Grade::Poor => "Poor",
        }
    }
}

/// A grey image: its width, its height and one 8-bit grey value per pixel,
/// row by row.
#[derive(Debug)]
pub struct GreyImage {
    pub width: u32,
    pub height: u32,
    pub pixels: Vec<u8>,
}

/// The grey version of the image that `image::load_from_memory` decodes from
/// these bytes, as `DynamicImage::grayscale` then `to_luma8` give it: its
/// width, its height and its grey values row by row; nothing when the bytes do
/// not decode.  A function of the bytes alone.
pub uninterp spec fn grey_image(bytes: Seq<u8>) -> Option<(u32, u32, Seq<u8>)>;

/// `image::load_from_memory`, then `DynamicImage::grayscale` and `to_luma8`
/// (with the buffer's `width`, `height` and `into_raw`): the grey image named
/// `grey_image`, or nothing when the bytes do not decode.  A decoded buffer
/// holds exactly its pixels, and the grey conversions keep that, so there is
/// one value per pixel.
#[verifier::external_body]
fn decode_grey(bytes: &[u8]) -> (res: Option<GreyImage>)
    ensures
        match res {
            Some(g) => grey_image(bytes@) == Some((g.width, g.height, g.pixels@))
                && g.pixels@.len() == g.width as int * g.height as int,
            None => grey_image(bytes@) is None,
        },
{
    match image::load_from_memory(bytes) {
        Ok(img) => {
            let grey = img.grayscale().to_luma8();
            Some(GreyImage { width: grey.width(), height: grey.height(), pixels: grey.into_raw() })
        },
        Err(_) => None,
    }
}

/// The grey value at column `x` of row `y` of a `w`-wide image.
pub open spec fn grey_at(p: Seq<u8>, w: u32, x: int, y: int) -> int {
    p[y * w + x] as int
}

proof fn lemma_index_in(x: int, y: int, w: int, h: int)
    by (nonlinear_arith)
    requires
        0 <= x < w,
        0 <= y < h,
    ensures
        0 <= y * w + x < w * h,
{
}

/// The grey value at column `x` of row `y`.
fn pixel(g: &GreyImage, x: u32, y: u32) -> (res: u8)
    requires
        g.pixels@.len() == g.width as int * g.height as int,
        x < g.width,
        y < g.height,
    ensures
        res as int == grey_at(g.pixels@, g.width, x as int, y as int),
{
    let len = g.pixels.len();
    proof {
        lemma_index_in(x as int, y as int, g.width as int, g.height as int);
        assert((y as int) * (g.width as int) + (x as int) < len);
    }
    let at: usize = y as usize * g.width as usize + x as usize;
    g.pixels[at]
}

/// The side of the corner squares: a tenth of the shorter side, and at least 5.
pub open spec fn corner_size(w: u32, h: u32) -> int {
    let m = if w < h { w as int } else { h as int } / 10;
    if m > 5 { m } else { 5 }
}

/// The top left pixel of corner square `k`: top left, top right, bottom left,
/// bottom right.
pub open spec fn corner_origin(w: u32, h: u32, k: int) -> (int, int) {
    let s = corner_size(w, h);
    if k == 0 {
        (0, 0)
    } else if k == 1 {
        (w - s, 0)
    } else if k == 2 {
        (0, h - s)
    } else {
        (w - s, h - s)
    }
}

/// The grey values of row `y` from column `x` on, `n` of them.
pub open spec fn row_run(p: Seq<u8>, w: u32, x: int, y: int, n: int) -> Seq<u8> {
    Seq::new(n as nat, |i: int| grey_at(p, w, x + i, y) as u8)
}

/// The grey values of the `s` by `s` square at `(x, y)`, its first `rows`
/// rows, row by row.
pub open spec fn square(p: Seq<u8>, w: u32, x: int, y: int, s: int, rows: int) -> Seq<u8>
    decreases rows,
{
    if rows <= 0 {
        Seq::empty()
    } else {
        square(p, w, x, y, s, rows - 1) + row_run(p, w, x, y + rows - 1, s)
    }
}

/// The image's sides leave room for the corner squares, and its border and
/// inner-pixel counts fit in a `u32`.
pub open spec fn measurable(w: u32, h: u32) -> bool {
    &&& w >= 5
    &&& h >= 5
    &&& 6 * (w + h) <= u32::MAX
    &&& (w - 2) * (h - 2) <= u32::MAX
}

/// Bit of brightness: 1 for a grey value above 200.
pub open spec fn bright(v: int) -> int {
    if v > 200 {
        1
    } else {
        0
    }
}

/// The bright pixels among the three top and three bottom rows of column `x`.
pub open spec fn column_bright(p: Seq<u8>, w: u32, h: u32, x: int) -> int {
    bright(grey_at(p, w, x, 0)) + bright(grey_at(p, w, x, 1)) + bright(grey_at(p, w, x, 2))
        + bright(grey_at(p, w, x, h - 3)) + bright(grey_at(p, w, x, h - 2)) + bright(
        grey_at(p, w, x, h - 1),
    )
}

/// The bright pixels among the three left and three right columns of row `y`.
pub open spec fn row_bright(p: Seq<u8>, w: u32, y: int) -> int {
    bright(grey_at(p, w, 0, y)) + bright(grey_at(p, w, 1, y)) + bright(grey_at(p, w, 2, y))
        + bright(grey_at(p, w, w - 3, y)) + bright(grey_at(p, w, w - 2, y)) + bright(
        grey_at(p, w, w - 1, y),
    )
}

/// The bright border pixels of the first `n` columns.
pub open spec fn columns_bright(p: Seq<u8>, w: u32, h: u32, n: int) -> int
    decreases n,
{
    if n <= 0 {
        0
    } else {
        columns_bright(p, w, h, n - 1) + column_bright(p, w, h, n - 1)
    }
}

/// The bright border pixels of the first `n` rows.
pub open spec fn rows_bright(p: Seq<u8>, w: u32, n: int) -> int
    decreases n,
{
    if n <= 0 {
        0
    } else {
        rows_bright(p, w, n - 1) + row_bright(p, w, n - 1)
    }
}

/// Four times the distance between a pixel's grey value and the mean of its
/// four neighbours.
pub open spec fn noise_at(p: Seq<u8>, w: u32, x: int, y: int) -> int {
    let d = 4 * grey_at(p, w, x, y) - (grey_at(p, w, x - 1, y) + grey_at(p, w, x + 1, y)
        + grey_at(p, w, x, y - 1) + grey_at(p, w, x, y + 1));
    if d < 0 {
        -d
    } else {
        d
    }
}

/// The noise of the inner pixels of row `y`, left to right.
pub open spec fn noise_row(p: Seq<u8>, w: u32, y: int) -> Seq<u32> {
    Seq::new((w - 2) as nat, |i: int| noise_at(p, w, i + 1, y) as u32)
}

/// The noise of the inner pixels of rows `1` to `n - 1`, row by row.
pub open spec fn noise_rows(p: Seq<u8>, w: u32, n: int) -> Seq<u32>
    decreases n,
{
    if n <= 1 {
        Seq::empty()
    } else {
        noise_rows(p, w, n - 1) + noise_row(p, w, n - 1)
    }
}

/// What grading scores: the four corner squares, the border's bright pixels
/// and how many border pixels were looked at, and the noise of each inner
/// pixel (four times its distance from its neighbours' mean), row by row.
#[derive(Debug)]
pub struct WearSamples {
    pub corners: Vec<Vec<u8>>,
    pub edge_bright: u32,
    pub edge_total: u32,
    pub noise: Vec<u32>,
}

/// `s` holds the samples of the `w` by `h` grey image `p`.
pub open spec fn samples_of(s: WearSamples, w: u32, h: u32, p: Seq<u8>) -> bool {
    let c = corner_size(w, h);
    &&& s.corners@.len() == 4
    &&& forall|k: int|
        0 <= k < 4 ==> (#[trigger] s.corners@[k])@ == square(
            p,
            w,
            corner_origin(w, h, k).0,
            corner_origin(w, h, k).1,
            c,
            c,
        )
    &&& s.edge_bright == columns_bright(p, w, h, w as int) + rows_bright(p, w, h as int)
    &&& s.edge_total == 6 * (w + h)
    &&& s.noise@ == noise_rows(p, w, h - 1)
}

/// What a photo gives grading.
#[derive(Debug)]
pub enum WearInput {
    /// The bytes do not decode as an image.
    NotAnImage,
    /// The image is too small for the corner squares (under 5 pixels on a
    /// side), or so large that its border or inner-pixel count overflows a
    /// `u32`.
    OutOfRange,
    Samples(WearSamples),
}

/// The grey values of the `s` by `s` square at `(x, y)`, row by row.
fn square_values(g: &GreyImage, x: u32, y: u32, s: u32) -> (res: Vec<u8>)
    requires
        g.pixels@.len() == g.width as int * g.height as int,
        x + s <= g.width,
        y + s <= g.height,
    ensures
        res@ == square(g.pixels@, g.width, x as int, y as int, s as int, s as int),
{
    let mut out: Vec<u8> = Vec::new();
    let mut r: u32 = 0;
    while r < s
        invariant
            g.pixels@.len() == g.width as int * g.height as int,
            x + s <= g.width,
            y + s <= g.height,
            r <= s,
            out@ == square(g.pixels@, g.width, x as int, y as int, s as int, r as int),
        decreases s - r,
    {
        let ghost before = out@;
        let mut c: u32 = 0;
        while c < s
            invariant
                g.pixels@.len() == g.width as int * g.height as int,
                x + s <= g.width,
                y + s <= g.height,
                r < s,
                c <= s,
                out@ == before + row_run(g.pixels@, g.width, x as int, (y + r) as int, c as int),
            decreases s - c,
        {
            let v = pixel(g, x + c, y + r);
            out.push(v);
            assert(out@ =~= before + row_run(
                g.pixels@,
                g.width,
                x as int,
                (y + r) as int,
                (c + 1) as int,
            ));
            c += 1;
        }
        r += 1;
    }
    out
}

/// The bright pixels among the three top and three bottom rows of column `x`.
fn column_bright_at(g: &GreyImage, x: u32) -> (res: u32)
    requires
        g.pixels@.len() == g.width as int * g.height as int,
        x < g.width,
        g.height >= 3,
    ensures
        res == column_bright(g.pixels@, g.width, g.height, x as int),
{
    let h = g.height;
    let mut n: u32 = 0;
    if pixel(g, x, 0) > 200 { n += 1; }
    if pixel(g, x, 1) > 200 { n += 1; }
    if pixel(g, x, 2) > 200 { n += 1; }
    if pixel(g, x, h - 3) > 200 { n += 1; }
    if pixel(g, x, h - 2) > 200 { n += 1; }
    if pixel(g, x, h - 1) > 200 { n += 1; }
    n
}

/// The bright pixels among the three left and three right columns of row `y`.
fn row_bright_at(g: &GreyImage, y: u32) -> (res: u32)
    requires
        g.pixels@.len() == g.width as int * g.height as int,
        y < g.height,
        g.width >= 3,
    ensures
        res == row_bright(g.pixels@, g.width, y as int),
{
    let w = g.width;
    let mut n: u32 = 0;
    if pixel(g, 0, y) > 200 { n += 1; }
    if pixel(g, 1, y) > 200 { n += 1; }
    if pixel(g, 2, y) > 200 { n += 1; }
    if pixel(g, w - 3, y) > 200 { n += 1; }
    if pixel(g, w - 2, y) > 200 { n += 1; }
    if pixel(g, w - 1, y) > 200 { n += 1; }
    n
}

proof fn lemma_columns_bright_bounded(p: Seq<u8>, w: u32, h: u32, n: int)
    ensures
        0 <= columns_bright(p, w, h, n) <= 6 * (if n < 0 { 0 } else { n }),
    decreases n,
{
    if n > 0 {
        lemma_columns_bright_bounded(p, w, h, n - 1);
    }
}

proof fn lemma_rows_bright_bounded(p: Seq<u8>, w: u32, n: int)
    ensures
        0 <= rows_bright(p, w, n) <= 6 * (if n < 0 { 0 } else { n }),
    decreases n,
{
    if n > 0 {
        lemma_rows_bright_bounded(p, w, n - 1);
    }
}

/// The bright pixels of the border bands (three pixels wide on each side).
fn edge_bright_count(g: &GreyImage) -> (res: u32)
    requires
        g.pixels@.len() == g.width as int * g.height as int,
        measurable(g.width, g.height),
    ensures
        res == columns_bright(g.pixels@, g.width, g.height, g.width as int) + rows_bright(
            g.pixels@,
            g.width,
            g.height as int,
        ),
{
    let mut n: u32 = 0;
    let mut x: u32 = 0;
    while x < g.width
        invariant
            g.pixels@.len() == g.width as int * g.height as int,
            measurable(g.width, g.height),
            x <= g.width,
            n == columns_bright(g.pixels@, g.width, g.height, x as int),
        decreases g.width - x,
    {
        proof {
            lemma_columns_bright_bounded(g.pixels@, g.width, g.height, x as int);
        }
        n = n + column_bright_at(g, x);
        x += 1;
    }
    let ghost cols = n;
    let mut y: u32 = 0;
    while y < g.height
        invariant
            g.pixels@.len() == g.width as int * g.height as int,
            measurable(g.width, g.height),
            y <= g.height,
            cols == columns_bright(g.pixels@, g.width, g.height, g.width as int),
            n == cols + rows_bright(g.pixels@, g.width, y as int),
        decreases g.height - y,
    {
        proof {
            lemma_columns_bright_bounded(g.pixels@, g.width, g.height, g.width as int);
            lemma_rows_bright_bounded(g.pixels@, g.width, y as int);
        }
        n = n + row_bright_at(g, y);
        y += 1;
    }
    n
}

/// The noise of the inner pixels, row by row.
fn noise_values(g: &GreyImage) -> (res: Vec<u32>)
    requires
        g.pixels@.len() == g.width as int * g.height as int,
        measurable(g.width, g.height),
    ensures
        res@ == noise_rows(g.pixels@, g.width, g.height - 1),
{
    let w = g.width;
    let h = g.height;
    let mut out: Vec<u32> = Vec::new();
    let mut y: u32 = 1;
    while y < h - 1
        invariant
            g.pixels@.len() == g.width as int * g.height as int,
            measurable(g.width, g.height),
            w == g.width,
            h == g.height,
            1 <= y <= h - 1,
            out@ == noise_rows(g.pixels@, w, y as int),
        decreases h - y,
    {
        let ghost before = out@;
        let mut x: u32 = 1;
        while x < w - 1
            invariant
                g.pixels@.len() == g.width as int * g.height as int,
                measurable(g.width, g.height),
                w == g.width,
                h == g.height,
                1 <= y < h - 1,
                1 <= x <= w - 1,
                out@ == before + Seq::new((x - 1) as nat, |i: int| noise_at(g.pixels@, w, i + 1, y as int) as u32),
            decreases w - x,
        {
            let c = pixel(g, x, y) as i32;
            let s = pixel(g, x - 1, y) as i32 + pixel(g, x + 1, y) as i32 + pixel(g, x, y - 1) as i32
                + pixel(g, x, y + 1) as i32;
            let d = 4 * c - s;
            let v: u32 = if d < 0 { (-d) as u32 } else { d as u32 };
            assert(v == noise_at(g.pixels@, w, x as int, y as int) as u32);
            out.push(v);
            assert(out@ =~= before + Seq::new(x as nat, |i: int| noise_at(g.pixels@, w, i + 1, y as int) as u32));
            x += 1;
        }
        assert(out@ =~= before + noise_row(g.pixels@, w, y as int));
        y += 1;
    }
    out
}

/// The samples of a grey image with room for the corner squares.
pub fn wear_samples(g: &GreyImage) -> (res: WearSamples)
    requires
        g.pixels@.len() == g.width as int * g.height as int,
        measurable(g.width, g.height),
    ensures
        samples_of(res, g.width, g.height, g.pixels@),
{
    let w = g.width;
    let h = g.height;
    let m = if w < h { w } else { h } / 10;
    let size = if m > 5 { m } else { 5 };
    assert(size == corner_size(w, h));
    let mut corners: Vec<Vec<u8>> = Vec::new();
    corners.push(square_values(g, 0, 0, size));
    corners.push(square_values(g, w - size, 0, size));
    corners.push(square_values(g, 0, h - size, size));
    corners.push(square_values(g, w - size, h - size, size));
    let edge_bright = edge_bright_count(g);
    let edge_total = 6 * (w + h);
    let noise = noise_values(g);
    let res = WearSamples { corners, edge_bright, edge_total, noise };
    assert forall|k: int| 0 <= k < 4 implies (#[trigger] res.corners@[k])@ == square(
        g.pixels@,
        w,
        corner_origin(w, h, k).0,
        corner_origin(w, h, k).1,
        size as int,
        size as int,
    ) by {
    }
    res
}

/// What the photo in these bytes gives grading: nothing to grade when they do
/// not decode, an out-of-range image (see `measurable`), or the samples of its
/// grey version.
pub fn wear_input(bytes: &[u8]) -> (res: WearInput)
    ensures
        match grey_image(bytes@) {
            None => res is NotAnImage,
            Some((w, h, p)) => if measurable(w, h) {
                res matches WearInput::Samples(s) && samples_of(s, w, h, p)
            } else {
                res is OutOfRange
            },
        },
{
    match decode_grey(bytes) {
        None => WearInput::NotAnImage,
        Some(g) => {
            let w = g.width;
            let h = g.height;
            let (a, b) = (w as u64, h as u64);
            if a >= 2 && b >= 2 {
                assert((a - 2) * (b - 2) <= 0xffff_ffff * 0xffff_ffffu64) by (nonlinear_arith)
                    requires
                        2 <= a <= 0xffff_ffff,
                        2 <= b <= 0xffff_ffff,
                ;
            }
            if a >= 5 && b >= 5 && (a + b) * 6 <= u32::MAX as u64 && (a - 2) * (b - 2) <= u32::MAX as u64 {
                WearInput::Samples(wear_samples(&g))
            } else {
                WearInput::OutOfRange
            }
        },
    }
}

/// The corner squares are a tenth of the shorter side wide, rounded down, but
/// never narrower than 5 pixels; the image's orientation does not change them.
pub proof fn lemma_corner_size(w: u32, h: u32)
    ensures
        corner_size(w, h) >= 5,
        corner_size(w, h) == corner_size(h, w),
        corner_size(w, h) > 5 ==> 10 * corner_size(w, h) <= w && 10 * corner_size(w, h) <= h,
        w >= 50 && h >= 50 ==> w < 10 * corner_size(w, h) + 10 || h < 10 * corner_size(w, h) + 10,
{
}

proof fn lemma_square_len(p: Seq<u8>, w: u32, x: int, y: int, s: int, rows: int)
    requires
        s >= 0,
        rows >= 0,
    ensures
        square(p, w, x, y, s, rows).len() == rows * s,
    decreases rows,
{
    if rows > 0 {
        lemma_square_len(p, w, x, y, s, rows - 1);
        assert(square(p, w, x, y, s, rows) == square(p, w, x, y, s, rows - 1) + row_run(
            p,
            w,
            x,
            y + rows - 1,
            s,
        ));
        assert(row_run(p, w, x, y + rows - 1, s).len() == s);
        assert((rows - 1) * s + s == rows * s) by (nonlinear_arith);
    } else {
        assert(rows * s == 0) by (nonlinear_arith)
            requires
                rows == 0,
        ;
    }
}

/// Each of the four corner samples holds one grey value per pixel of its
/// square: the corner size squared.
pub proof fn lemma_corner_samples_len(s: WearSamples, w: u32, h: u32, p: Seq<u8>)
    requires
        samples_of(s, w, h, p),
    ensures
        forall|k: int|
            0 <= k < 4 ==> (#[trigger] s.corners@[k])@.len() == corner_size(w, h) * corner_size(w, h),
{
    let c = corner_size(w, h);
    assert forall|k: int| 0 <= k < 4 implies (#[trigger] s.corners@[k])@.len() == c * c by {
        lemma_square_len(p, w, corner_origin(w, h, k).0, corner_origin(w, h, k).1, c, c);
    }
}

} // verus!
