//! Texture layout: the size of each level of a texture's mipmap chain, and the
//! checks that an RGBA8 upload has to pass before it reaches the GPU.

use vstd::prelude::*;
use vstd::arithmetic::power::lemma_pow0;
use vstd::arithmetic::power2::{pow2, lemma_pow2_unfold};

verus! {

/// ⌊log2(n)⌋, with 0 for both 0 and 1.
pub open spec fn floor_log2(n: nat) -> nat
    decreases n,
{
    if n <= 1 {
        0
    } else {
        1 + floor_log2(n / 2)
    }
}

/// `n` halved `k` times, rounding down each time.
pub open spec fn halve(n: nat, k: nat) -> nat
    decreases k,
{
    if k == 0 {
        n
    } else {
        halve(n, (k - 1) as nat) / 2
    }
}

pub open spec fn max_nat(a: nat, b: nat) -> nat {
    if a >= b {
        a
    } else {
        b
    }
}

/// The number of levels in the full mipmap chain of a `width` × `height` image.
pub open spec fn mip_levels(width: nat, height: nat) -> nat {
    floor_log2(max_nat(width, height)) + 1
}

/// One side of mip level `level` of an image whose side at level 0 is `size`.
pub open spec fn mip_side(size: nat, level: nat) -> nat {
    max_nat(1, halve(size, level))
}

/// The size of one level of a mipmap chain.
#[derive(Clone, Copy, Debug, PartialEq, Eq, Structural)]
pub struct Extent {
    pub width: u32,
    pub height: u32,
}

pub open spec fn mip_extent_spec(base: Extent, level: nat) -> Extent {
    Extent {
        width: mip_side(base.width as nat, level) as u32,
        height: mip_side(base.height as nat, level) as u32,
    }
}

proof fn lemma_halve_front(n: nat, k: nat)
    ensures
        halve(n, k + 1) == halve(n / 2, k),
    decreases k,
{
    let m: nat = n / 2;
    if k > 0 {
        let j = (k - 1) as nat;
        lemma_halve_front(n, j);
        assert(j + 1 == k);
        assert(halve(n, k) == halve(m, j));
        assert(halve(n, k + 1) == halve(n, k) / 2);
        assert(halve(m, k) == halve(m, j) / 2);
    } else {
        assert(halve(n, 1) == halve(n, 0) / 2);
        assert(halve(m, 0) == m);
    }
}

proof fn lemma_halve_monotone(m: nat, n: nat, k: nat)
    requires
        m <= n,
    ensures
        halve(m, k) <= halve(n, k),
    decreases k,
{
    if k > 0 {
        lemma_halve_monotone(m, n, (k - 1) as nat);
    }
}

proof fn lemma_halve_to_one(n: nat)
    requires
        n >= 1,
    ensures
        halve(n, floor_log2(n)) == 1,
        n >= 2 ==> halve(n, (floor_log2(n) - 1) as nat) >= 2,
    decreases n,
{
    if n >= 2 {
        lemma_halve_to_one(n / 2);
        lemma_halve_front(n, floor_log2(n / 2));
        if n / 2 >= 2 {
            lemma_halve_front(n, (floor_log2(n / 2) - 1) as nat);
        }
    }
}

/// `floor_log2` is the integer part of the base-2 logarithm.
pub proof fn lemma_floor_log2_bounds(n: nat)
    requires
        n >= 1,
    ensures
        pow2(floor_log2(n)) <= n < pow2(floor_log2(n) + 1),
    decreases n,
{
    lemma_pow2_unfold(floor_log2(n) + 1);
    if n >= 2 {
        lemma_floor_log2_bounds(n / 2);
        lemma_pow2_unfold(floor_log2(n));
    } else {
        lemma_pow0(2);
    }
}

/// The mipmap chain of a non-empty image is complete and has no level to
/// spare: its number of levels is ⌊log2(max(width, height))⌋ + 1, its last
/// level is 1 × 1, and every level before the last is larger than 1 × 1.
pub proof fn law_mip_chain_complete(width: nat, height: nat)
    requires
        width >= 1,
        height >= 1,
    ensures
        pow2((mip_levels(width, height) - 1) as nat) <= max_nat(width, height)
            < pow2(mip_levels(width, height)),
        mip_side(width, (mip_levels(width, height) - 1) as nat) == 1,
        mip_side(height, (mip_levels(width, height) - 1) as nat) == 1,
        forall|level: nat|
            level < mip_levels(width, height) - 1 ==> max_nat(
                mip_side(width, level),
                mip_side(height, level),
            ) >= 2,
{
    let n = max_nat(width, height);
    let last = floor_log2(n);
    lemma_floor_log2_bounds(n);
    lemma_halve_to_one(n);
    lemma_halve_monotone(width, n, last);
    lemma_halve_monotone(height, n, last);
    assert forall|level: nat| level < mip_levels(width, height) - 1 implies max_nat(
        mip_side(width, level),
        mip_side(height, level),
    ) >= 2 by {
        lemma_halve_antitone(n, level, (last - 1) as nat);
    }
}

proof fn lemma_halve_antitone(n: nat, j: nat, k: nat)
    requires
        j <= k,
    ensures
        halve(n, k) <= halve(n, j),
    decreases k,
{
    if j < k {
        lemma_halve_antitone(n, j, (k - 1) as nat);
    }
}

/// The number of levels in the full mipmap chain of a `width` × `height`
/// texture: ⌊log2(max(width, height))⌋ + 1.
pub fn mip_level_count(width: u32, height: u32) -> (r: u32)
    ensures
        r == mip_levels(width as nat, height as nat),
{
    let mut m: u32 = if width >= height { width } else { height };
    let mut count: u32 = 1;
    proof {
        lemma_floor_log2_u32(m);
    }
    while m > 1
        invariant
            count + floor_log2(m as nat) == mip_levels(width as nat, height as nat),
            count + floor_log2(m as nat) <= 33,
            count >= 1,
        decreases m,
    {
        m = m / 2;
        count = count + 1;
    }
    count
}

proof fn lemma_floor_log2_small(n: nat, e: nat)
    requires
        n < pow2(e),
        e >= 1,
    ensures
        floor_log2(n) < e,
    decreases n,
{
    lemma_pow2_unfold(e);
    if n >= 2 && e >= 2 {
        lemma_floor_log2_small(n / 2, (e - 1) as nat);
    } else if n >= 2 {
        lemma_pow0(2);
    }
}

proof fn lemma_floor_log2_u32(n: u32)
    ensures
        floor_log2(n as nat) <= 31,
{
    vstd::arithmetic::power2::lemma2_to64();
    lemma_floor_log2_small(n as nat, 32);
}

/// One side of mip level `level` of an image whose side at level 0 is `size`:
/// the side halved `level` times, but never below one texel.
pub fn mip_side_of(size: u32, level: u32) -> (r: u32)
    ensures
        r == mip_side(size as nat, level as nat),
{
    let mut s: u32 = size;
    let mut k: u32 = 0;
    while k < level
        invariant
            k <= level,
            s == halve(size as nat, k as nat),
        decreases level - k,
    {
        s = s / 2;
        k = k + 1;
    }
    if s >= 1 {
        s
    } else {
        1
    }
}

/// The size of every level of the mipmap chain of a `width` × `height`
/// texture, from the full-size level down.
pub fn mip_chain(width: u32, height: u32) -> (r: Vec<Extent>)
    ensures
        r@.len() == mip_levels(width as nat, height as nat),
        forall|level: int|
            0 <= level < r@.len() ==> #[trigger] r@[level] == mip_extent_spec(
                Extent { width, height },
                level as nat,
            ),
{
    let count = mip_level_count(width, height);
    let mut r: Vec<Extent> = Vec::new();
    let mut level: u32 = 0;
    while level < count
        invariant
            level <= count,
            count == mip_levels(width as nat, height as nat),
            r@.len() == level,
            forall|l: int|
                0 <= l < r@.len() ==> #[trigger] r@[l] == mip_extent_spec(
                    Extent { width, height },
                    l as nat,
                ),
        decreases count - level,
    {
        let w = mip_side_of(width, level);
        let h = mip_side_of(height, level);
        r.push(Extent { width: w, height: h });
        level = level + 1;
    }
    r
}

/// Why an RGBA8 image cannot be made into a texture.
#[derive(Clone, Copy, Debug, PartialEq, Eq, Structural)]
pub enum TextureError {
    /// The image has no texels.
    Empty,
    /// A row of the image takes more bytes than a `u32` counts.
    RowTooLong,
    /// The data is not four bytes for each texel.
    DataLength,
}

/// How an RGBA8 image is laid out for upload, and how many mip levels its
/// texture gets.
#[derive(Clone, Copy, Debug, PartialEq, Eq, Structural)]
pub struct TextureLayout {
    pub width: u32,
    pub height: u32,
    pub mip_level_count: u32,
    pub bytes_per_row: u32,
    pub rows_per_image: u32,
}

/// The error, if any, of an upload of `data_len` bytes as a `width` × `height`
/// RGBA8 image.
pub open spec fn texture_error(width: nat, height: nat, data_len: nat) -> Option<TextureError> {
    if width == 0 || height == 0 {
        Some(TextureError::Empty)
    } else if 4 * width > u32::MAX {
        Some(TextureError::RowTooLong)
    } else if data_len != 4 * width * height {
        Some(TextureError::DataLength)
    } else {
        None
    }
}

/// Checks an upload of `data_len` bytes as a `width` × `height` RGBA8 image and
/// gives its layout: rows of `4 * width` bytes, `height` rows, and the full
/// mipmap chain.
pub fn plan_texture(width: u32, height: u32, data_len: usize) -> (r: Result<TextureLayout, TextureError>)
    ensures
        match r {
            Ok(layout) => texture_error(width as nat, height as nat, data_len as nat) is None
                && layout == (TextureLayout {
                width,
                height,
                mip_level_count: mip_levels(width as nat, height as nat) as u32,
                bytes_per_row: (4 * width) as u32,
                rows_per_image: height,
            }),
            Err(e) => texture_error(width as nat, height as nat, data_len as nat) == Some(e),
        },
{
    if width == 0 || height == 0 {
        return Err(TextureError::Empty);
    }
    if width > u32::MAX / 4 {
        return Err(TextureError::RowTooLong);
    }
    let bytes_per_row: u32 = 4 * width;
    proof {
        assert((bytes_per_row as u64) * (height as u64) <= (u32::MAX as u64) * (u32::MAX as u64))
            by (nonlinear_arith)
            requires
                bytes_per_row <= u32::MAX,
                height <= u32::MAX,
        ;
    }
    let expected: u64 = (bytes_per_row as u64) * (height as u64);
    if data_len as u64 != expected {
        return Err(TextureError::DataLength);
    }
    Ok(TextureLayout {
        width,
        height,
        mip_level_count: mip_level_count(width, height),
        bytes_per_row,
        rows_per_image: height,
    })
}

} // verus!
