//! Work-group sizing for compute passes.
use vstd::prelude::*;

verus! {

/// Ceiling of `a / b` over the integers.
pub open spec fn ceil_div(a: int, b: int) -> int {
    (a + b - 1) / b
}

/// `a.div_ceil(b)` for `u32`, proved equal to the mathematical ceiling.
pub fn div_ceil_u32(a: u32, b: u32) -> (r: u32)
    requires
        b > 0,
    ensures
        r == ceil_div(a as int, b as int),
{
    let q = a / b;
    if a % b == 0 {
        assert(ceil_div(a as int, b as int) == q) by (nonlinear_arith)
            requires b > 0, a % b == 0, q == a / b;
        q
    } else {
        assert(ceil_div(a as int, b as int) == q + 1 && q + 1 <= u32::MAX) by (nonlinear_arith)
            requires b > 0, a % b != 0, q == a / b, a <= u32::MAX;
        q + 1
    }
}

/// Law: `ceil_div(a, b)` groups of `b` cover `a` items, and one group fewer
/// does not: the dispatch reaches every pixel with no group to spare.
pub proof fn work_groups_cover_target(a: int, b: int)
    requires
        a >= 0,
        b > 0,
    ensures
        ceil_div(a, b) * b >= a,
        (ceil_div(a, b) - 1) * b < a || a == 0,
        ceil_div(a, b) >= 0,
{
    assert(ceil_div(a, b) * b >= a && ((ceil_div(a, b) - 1) * b < a || a == 0) && ceil_div(a, b) >= 0)
        by (nonlinear_arith)
        requires a >= 0, b > 0, ceil_div(a, b) == (a + b - 1) / b;
}

/// Number of 8x8 work groups needed to cover a target of the given size.
pub fn work_group_size(target_x: u32, target_y: u32) -> (r: (u32, u32))
    ensures
        r.0 == ceil_div(target_x as int, 8),
        r.1 == ceil_div(target_y as int, 8),
{
    (div_ceil_u32(target_x, 8), div_ceil_u32(target_y, 8))
}

/// Number of 128-wide work groups for the diagonal pass over a target of
/// the given size (the larger side counts), and whether the target is
/// square as that pass expects.
pub fn diagonal_work_group(target_x: u32, target_y: u32) -> (r: (u32, bool))
    ensures
        r.0 == ceil_div(if target_x >= target_y { target_x as int } else { target_y as int }, 128),
        r.1 == (target_x == target_y),
{
    let target = if target_x >= target_y { target_x } else { target_y };
    (div_ceil_u32(target, 128), target_x == target_y)
}

/// Bytes per row of a `width`-pixel RGBA image, rounded up to a multiple of
/// `align`.
pub open spec fn aligned_row(width: int, align: int) -> int {
    ceil_div(4 * width, align) * align
}

/// Bytes per row of a `width`-pixel RGBA image, rounded up to a multiple of
/// `align` as texture copies require.
pub fn aligned_bytes_per_row(width: u32, align: u32) -> (r: u32)
    requires
        align > 0,
        4 * width <= u32::MAX,
        aligned_row(width as int, align as int) <= u32::MAX,
    ensures
        r == aligned_row(width as int, align as int),
        r >= 4 * width,
        r % align == 0,
{
    let unaligned = 4 * width;
    let q = div_ceil_u32(unaligned, align);
    assert(q * align >= unaligned && (q * align) % (align as int) == 0) by (nonlinear_arith)
        requires align > 0, q == (unaligned + align - 1) / (align as int);
    q * align
}

/// Size in bytes of the read-back buffer for a `width` by `height` image:
/// four times the aligned row size times the height.
pub fn output_buffer_size(width: u32, height: u32, align: u32) -> (r: u64)
    requires
        align > 0,
        4 * width <= u32::MAX,
        4 * aligned_row(width as int, align as int) <= u32::MAX,
        4 * aligned_row(width as int, align as int) * height <= u32::MAX,
    ensures
        r == 4 * aligned_row(width as int, align as int) * height,
{
    let aligned = aligned_bytes_per_row(width, align);
    let bytes = 4 * aligned;
    assert(bytes * height <= u32::MAX);
    (bytes * height) as u64
}

/// The pixels of a `width` by `height` RGBA image read back with rows
/// padded to a multiple of 256 bytes, with the padding removed.
pub fn unpad_rows(data: &[u8], width: u32, height: u32) -> (pixels: Vec<u8>)
    requires
        4 * width <= u32::MAX,
        4 * width * height <= u32::MAX,
        aligned_row(width as int, 256) <= u32::MAX,
        height > 0 ==> (height - 1) * aligned_row(width as int, 256) <= u32::MAX,
        height > 0 ==> data.len() >= (height - 1) * aligned_row(width as int, 256) + 4 * width,
    ensures
        pixels.len() == 4 * width * height,
        forall|r: int, k: int|
            0 <= r < height && 0 <= k < 4 * width ==> #[trigger] pixels@[r * (4 * width) + k] == data@[r
                * aligned_row(width as int, 256) + k],
{
    let row_bytes = 4 * width;
    let aligned: u32 = aligned_bytes_per_row(width, 256);
    let ghost al = aligned_row(width as int, 256);
    let mut pixels: Vec<u8> = Vec::new();
    let mut row: u32 = 0;
    while row < height
        invariant
            row_bytes == 4 * width,
            aligned == al,
            al >= row_bytes,
            4 * width * height <= u32::MAX,
            height > 0 ==> (height - 1) * al <= u32::MAX,
            height > 0 ==> data.len() >= (height - 1) * al + 4 * width,
            row <= height,
            pixels.len() == row * row_bytes,
            forall|r: int, k: int|
                0 <= r < row && 0 <= k < row_bytes ==> #[trigger] pixels@[r * row_bytes + k] == data@[r * al + k],
        decreases height - row,
    {
        assert(row * aligned + row_bytes <= data.len() && row * aligned <= u32::MAX) by (nonlinear_arith)
            requires row < height, aligned == al, al >= row_bytes, data.len() >= (height - 1) * al + row_bytes,
                (height - 1) * al <= u32::MAX, al >= 0;
        let src_offset = (row * aligned) as usize;
        let ghost base = pixels@.len();
        let mut k: usize = 0;
        while k < row_bytes as usize
            invariant
                row_bytes == 4 * width,
                src_offset == row * al,
                src_offset + row_bytes <= data.len(),
                base == row * row_bytes,
                k <= row_bytes,
                pixels.len() == base + k,
                forall|r: int, kk: int|
                    0 <= r < row && 0 <= kk < row_bytes ==> #[trigger] pixels@[r * row_bytes + kk] == data@[r * al + kk],
                forall|p: int| base <= p < base + k ==> #[trigger] pixels@[p] == data@[src_offset + (p - base)],
            decreases row_bytes - k,
        {
            pixels.push(data[src_offset + k]);
            proof {
                assert forall|r: int, kk: int|
                    0 <= r < row && 0 <= kk < row_bytes implies #[trigger] pixels@[r * row_bytes + kk] == data@[r * al + kk] by {
                    assert(r * row_bytes + kk < row * row_bytes) by (nonlinear_arith)
                        requires r < row, kk < row_bytes, r >= 0;
                }
            }
            k = k + 1;
        }
        proof {
            assert forall|r: int, kk: int|
                0 <= r < row + 1 && 0 <= kk < row_bytes implies #[trigger] pixels@[r * row_bytes + kk] == data@[r * al + kk] by {
                if r == row {
                    assert(pixels@[base + kk] == data@[src_offset + kk]);
                }
            }
            assert((row + 1) * row_bytes == base + row_bytes) by (nonlinear_arith)
                requires base == row * row_bytes;
            assert((row + 1) * row_bytes <= 4 * width * height) by (nonlinear_arith)
                requires row < height, row_bytes == 4 * width, row_bytes >= 0;
        }
        row = row + 1;
    }
    assert(height * row_bytes == 4 * width * height) by (nonlinear_arith) requires row_bytes == 4 * width;
    pixels
}

/// A scene block padded with zeros to the 256 bytes of its uniform buffer.
pub fn pad_to_256(bytes: &Vec<u8>) -> (buffer: [u8; 256])
    requires
        bytes.len() <= 256,
    ensures
        forall|i: int| 0 <= i < bytes.len() ==> buffer@[i] == bytes@[i],
        forall|i: int| bytes.len() <= i < 256 ==> buffer@[i] == 0,
{
    let mut buffer = [0u8; 256];
    let mut i: usize = 0;
    while i < bytes.len()
        invariant
            bytes.len() <= 256,
            buffer@.len() == 256,
            i <= bytes.len(),
            forall|j: int| 0 <= j < i ==> buffer@[j] == bytes@[j],
            forall|j: int| i <= j < 256 ==> buffer@[j] == 0,
        decreases bytes.len() - i,
    {
        buffer[i] = bytes[i];
        i = i + 1;
    }
    buffer
}

/// An image of size `image` fits a texture of size `texture`.
pub fn texture_fits(texture: (u32, u32), image: (u32, u32)) -> (fits: bool)
    ensures
        fits == (image.0 <= texture.0 && image.1 <= texture.1),
{
    !(texture.0 < image.0 || texture.1 < image.1)
}

} // verus!
