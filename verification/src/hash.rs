//! Perceptual hashes of card images and the distance between them.

use vstd::prelude::*;

verus! {

/// The resampling filters an image can be resized with.
#[derive(Debug, Clone, Copy, PartialEq, Eq, Structural)]
pub enum ResizeFilter {
    Nearest,
    Triangle,
    CatmullRom,
    Gaussian,
    Lanczos3,
}

/// The width and height of the thumbnail an image is hashed from.
pub const THUMBNAIL_SIZE: u32 = 32;

/// The side of the square region of the thumbnail, at its top left corner,
/// whose pixels give the hash bits.
pub const HASH_REGION: u64 = 8;

/// The grey values, row by row, of the `width` by `height` thumbnail
/// (resampled with `filter`) of the image that `image::load_from_memory`
/// decodes from these bytes, as `to_luma8` gives them; nothing when the bytes
/// do not decode.  A function of its arguments alone.
pub uninterp spec fn thumbnail_luma(bytes: Seq<u8>, width: u32, height: u32, filter: ResizeFilter)
    -> Option<Seq<u8>>;

/// The grey thumbnail a card image is hashed from: 32 by 32 pixels, resampled
/// with Lanczos3.
pub open spec fn card_thumbnail(bytes: Seq<u8>) -> Option<Seq<u8>> {
    thumbnail_luma(bytes, THUMBNAIL_SIZE, THUMBNAIL_SIZE, ResizeFilter::Lanczos3)
}

/// `image::load_from_memory`, then `DynamicImage::resize_exact` to `width` by
/// `height` pixels with `filter`, `grayscale` and `to_luma8`: the grey
/// thumbnail of the encoded image, named `thumbnail_luma`, or nothing when the
/// bytes do not decode.  Resizing makes a fresh `width` by `height` buffer and
/// the grey conversions keep that size, so the thumbnail holds one value per
/// pixel.  The sizes are bounded so that the buffers stay small.
#[verifier::external_body]
fn decode_thumbnail_luma(bytes: &[u8], width: u32, height: u32, filter: ResizeFilter) -> (res:
    Option<Vec<u8>>)
    requires
        width <= 1024,
        height <= 1024,
    ensures
        match res {
            Some(v) => thumbnail_luma(bytes@, width, height, filter) == Some(v@) && v@.len()
                == width as int * height as int,
            None => thumbnail_luma(bytes@, width, height, filter) is None,
        },
{
    let f = match filter {
        ResizeFilter::Nearest => image::imageops::FilterType::Nearest,
        ResizeFilter::Triangle => image::imageops::FilterType::Triangle,
        ResizeFilter::CatmullRom => image::imageops::FilterType::CatmullRom,
        ResizeFilter::Gaussian => image::imageops::FilterType::Gaussian,
        ResizeFilter::Lanczos3 => image::imageops::FilterType::Lanczos3,
    };
    match image::load_from_memory(bytes) {
        Ok(img) => Some(img.resize_exact(width, height, f).grayscale().to_luma8().into_raw()),
        Err(_) => None,
    }
}

/// The sum of the grey values.
pub open spec fn luma_sum(p: Seq<u8>) -> int
    decreases p.len(),
{
    if p.len() == 0 {
        0
    } else {
        luma_sum(p.drop_last()) + p.last() as int
    }
}

/// Pixel `i` is brighter than the mean grey value of all pixels.
pub open spec fn brighter_than_mean(p: Seq<u8>, i: int) -> bool {
    0 <= i < p.len() && (p[i] as int) * p.len() > luma_sum(p)
}

/// Bit `i` of `x` is set.
pub open spec fn bit_set(x: u64, i: u64) -> bool {
    (x >> i) & 1u64 == 1u64
}

/// The position, in a thumbnail read row by row, of the pixel that gives hash
/// bit `i`: bit `8 * r + c` comes from the pixel in column `c` of row `r` of
/// the top left 8 by 8 region.
pub open spec fn region_pixel(i: u64) -> int {
    (i / HASH_REGION) * THUMBNAIL_SIZE + (i % HASH_REGION)
}

/// The hash of a grey thumbnail: bit `8 * r + c` (`r, c < 8`) is set exactly
/// when the pixel in column `c` of row `r` is brighter than the mean of all
/// pixels.
pub open spec fn is_luma_hash(p: Seq<u8>, h: u64) -> bool {
    forall|i: u64| i < 64 ==> (#[trigger] bit_set(h, i) <==> brighter_than_mean(p, region_pixel(i)))
}

proof fn lemma_or_bit(h: u64, i: u64)
    requires
        i < 64,
        h >> i == 0,
    ensures
        forall|j: u64| j < 64 && j != i ==> (#[trigger] bit_set(h | (1u64 << i), j) <==> bit_set(h, j)),
        bit_set(h | (1u64 << i), i),
        i + 1 < 64 ==> (h | (1u64 << i)) >> ((i + 1) as u64) == 0,
        i + 1 < 64 ==> h >> ((i + 1) as u64) == 0,
{
    assert forall|j: u64| j < 64 && j != i implies (#[trigger] bit_set(h | (1u64 << i), j) <==> bit_set(h, j)) by {
        assert(j < 64 && j != i ==> (((h | (1u64 << i)) >> j) & 1u64 == (h >> j) & 1u64)) by (bit_vector);
    }
    assert(i < 64 && h >> i == 0 ==> ((h | (1u64 << i)) >> i) & 1u64 == 1u64) by (bit_vector);
    assert(i + 1 < 64 && h >> i == 0 ==> (h | (1u64 << i)) >> ((i + 1) as u64) == 0) by (bit_vector);
    assert(i + 1 < 64 && h >> i == 0 ==> h >> ((i + 1) as u64) == 0) by (bit_vector);
}

proof fn lemma_high_bits_clear(h: u64, i: u64)
    requires
        i < 64,
        h >> i == 0,
    ensures
        forall|j: u64| i <= j < 64 ==> !#[trigger] bit_set(h, j),
{
    assert forall|j: u64| i <= j < 64 implies !#[trigger] bit_set(h, j) by {
        assert(i <= j < 64 && h >> i == 0 ==> (h >> j) & 1u64 == 0) by (bit_vector);
    }
}

/// The perceptual hash of a grey 32-pixel-wide thumbnail given by its pixel
/// values, row by row: bit `8 * r + c` (`r, c < 8`) is set exactly when the
/// pixel in column `c` of row `r` exists and is brighter than the mean of all
/// pixels.
pub fn phash(pixels: &[u8]) -> (res: u64)
    ensures
        is_luma_hash(pixels@, res),
{
    let n = pixels.len();
    let mut sum: u128 = 0;
    let mut k: usize = 0;
    while k < n
        invariant
            n == pixels@.len(),
            k <= n,
            sum == luma_sum(pixels@.take(k as int)),
            sum <= 255 * k,
        decreases n - k,
    {
        assert(pixels@.take(k + 1).drop_last() =~= pixels@.take(k as int));
        sum = sum + pixels[k] as u128;
        k += 1;
    }
    assert(pixels@.take(n as int) =~= pixels@);
    let mut hash: u64 = 0;
    let mut i: u64 = 0;
    assert(hash >> 0u64 == 0) by (bit_vector)
        requires
            hash == 0u64,
    ;
    while i < 64
        invariant
            i <= 64,
            n == pixels@.len(),
            sum == luma_sum(pixels@),
            i < 64 ==> hash >> i == 0,
            forall|j: u64|
                j < i ==> (#[trigger] bit_set(hash, j) <==> brighter_than_mean(
                    pixels@,
                    region_pixel(j),
                )),
        decreases 64 - i,
    {
        let at: usize = ((i / 8) * 32 + i % 8) as usize;
        assert(at == region_pixel(i));
        let bright = if at < n {
            let v = pixels[at] as u128;
            assert(v * (n as int) <= 255 * (n as int)) by (nonlinear_arith)
                requires
                    v <= 255,
            ;
            v * (n as u128) > sum
        } else {
            false
        };
        proof {
            lemma_or_bit(hash, i);
            lemma_high_bits_clear(hash, i);
        }
        if bright {
            hash = hash | (1u64 << i);
        }
        i += 1;
    }
    hash
}

/// The 64-bit perceptual hash of encoded image bytes: the hash (`phash`) of
/// the grey 32 by 32 thumbnail (Lanczos3) of the decoded image, or nothing
/// when the bytes do not decode.
pub fn phash_bytes(bytes: &[u8]) -> (res: Option<u64>)
    ensures
        match card_thumbnail(bytes@) {
            Some(p) => res matches Some(h) && is_luma_hash(p, h),
            None => res is None,
        },
{
    match decode_thumbnail_luma(bytes, THUMBNAIL_SIZE, THUMBNAIL_SIZE, ResizeFilter::Lanczos3) {
        Some(pixels) => Some(phash(pixels.as_slice())),
        None => None,
    }
}

/// The number of set bits among the lowest `n` bits of `x`.
pub open spec fn ones(x: u64, n: nat) -> nat
    decreases n,
{
    if n == 0 {
        0
    } else {
        ones(x, (n - 1) as nat) + if bit_set(x, (n - 1) as u64) {
            1nat
        } else {
            0nat
        }
    }
}

/// The Hamming distance of two hashes: the number of bit positions where they
/// differ.
pub open spec fn hamming_distance(a: u64, b: u64) -> nat {
    ones(a ^ b, 64)
}

/// The number of bit positions where `a` and `b` differ: lower means more
/// similar.
pub fn hamming(a: u64, b: u64) -> (res: u32)
    ensures
        res == hamming_distance(a, b),
        res <= 64,
{
    let x = a ^ b;
    let mut count: u32 = 0;
    let mut i: u64 = 0;
    while i < 64
        invariant
            i <= 64,
            x == a ^ b,
            count == ones(x, i as nat),
            count <= i,
        decreases 64 - i,
    {
        let bit = (x >> i) & 1u64;
        assert(bit <= 1u64) by (bit_vector)
            requires
                bit == (x >> i) & 1u64,
        ;
        count = count + bit as u32;
        i += 1;
    }
    count
}

proof fn lemma_ones_bounded(x: u64, n: nat)
    ensures
        ones(x, n) <= n,
    decreases n,
{
    if n > 0 {
        lemma_ones_bounded(x, (n - 1) as nat);
    }
}

proof fn lemma_ones_zero(n: nat)
    requires
        n <= 64,
    ensures
        ones(0u64, n) == 0,
    decreases n,
{
    if n > 0 {
        lemma_ones_zero((n - 1) as nat);
        let i = (n - 1) as u64;
        assert((0u64 >> i) & 1u64 == 0u64) by (bit_vector);
    }
}

/// The distance is symmetric, zero from a hash to itself, and at most 64.
pub proof fn lemma_hamming_metric(a: u64, b: u64)
    ensures
        hamming_distance(a, b) == hamming_distance(b, a),
        hamming_distance(a, a) == 0,
        hamming_distance(a, b) <= 64,
{
    assert(a ^ b == b ^ a) by (bit_vector);
    assert(a ^ a == 0u64) by (bit_vector);
    lemma_ones_zero(64);
    lemma_ones_bounded(a ^ b, 64);
}

proof fn lemma_shift_clear(x: u64, k: u64)
    requires
        k <= 63,
        forall|i: u64| i < 64 ==> !#[trigger] bit_set(x, i),
    ensures
        x >> k == 0,
    decreases 63 - k,
{
    if k == 63 {
        assert(!bit_set(x, 63));
        assert((x >> 63u64) & 1u64 != 1u64 ==> x >> 63u64 == 0) by (bit_vector);
    } else {
        lemma_shift_clear(x, (k + 1) as u64);
        assert(!bit_set(x, k));
        assert(k < 63 && x >> ((k + 1) as u64) == 0 && (x >> k) & 1u64 != 1u64 ==> x >> k == 0)
            by (bit_vector);
    }
}

/// A value with none of its 64 bits set is zero.
proof fn lemma_no_bits_zero(x: u64)
    requires
        forall|i: u64| i < 64 ==> !#[trigger] bit_set(x, i),
    ensures
        x == 0,
{
    lemma_shift_clear(x, 0);
    assert(x >> 0u64 == x) by (bit_vector);
}

proof fn lemma_ones_zero_bits(x: u64, n: nat)
    requires
        n <= 64,
        ones(x, n) == 0,
    ensures
        forall|i: u64| i < n ==> !#[trigger] bit_set(x, i),
    decreases n,
{
    if n > 0 {
        lemma_ones_zero_bits(x, (n - 1) as nat);
    }
}

proof fn lemma_ones_triangle(a: u64, b: u64, c: u64, n: nat)
    requires
        n <= 64,
    ensures
        ones(a ^ c, n) <= ones(a ^ b, n) + ones(b ^ c, n),
    decreases n,
{
    if n > 0 {
        lemma_ones_triangle(a, b, c, (n - 1) as nat);
        let i = (n - 1) as u64;
        assert(((a ^ c) >> i) & 1u64 == 1u64 ==> ((a ^ b) >> i) & 1u64 == 1u64 || ((b ^ c) >> i)
            & 1u64 == 1u64) by (bit_vector);
    }
}

/// Distance zero means equal hashes, and going through a third hash is never
/// shorter (the triangle inequality).
pub proof fn lemma_hamming_zero_and_triangle(a: u64, b: u64, c: u64)
    ensures
        hamming_distance(a, b) == 0 <==> a == b,
        hamming_distance(a, c) <= hamming_distance(a, b) + hamming_distance(b, c),
{
    lemma_hamming_metric(a, b);
    if hamming_distance(a, b) == 0 {
        lemma_ones_zero_bits(a ^ b, 64);
        lemma_no_bits_zero(a ^ b);
        assert(a ^ b == 0u64 ==> a == b) by (bit_vector);
    }
    lemma_ones_triangle(a, b, c, 64);
}

/// A thumbnail has exactly one luma hash.
pub proof fn lemma_luma_hash_unique(p: Seq<u8>, h1: u64, h2: u64)
    requires
        is_luma_hash(p, h1),
        is_luma_hash(p, h2),
    ensures
        h1 == h2,
{
    assert forall|i: u64| i < 64 implies !#[trigger] bit_set(h1 ^ h2, i) by {
        assert(bit_set(h1, i) <==> bit_set(h2, i));
        assert(((h1 >> i) & 1u64 == 1u64) == ((h2 >> i) & 1u64 == 1u64) ==> ((h1 ^ h2) >> i) & 1u64
            != 1u64) by (bit_vector);
    }
    lemma_no_bits_zero(h1 ^ h2);
    assert(h1 ^ h2 == 0u64 ==> h1 == h2) by (bit_vector);
}

} // verus!
