//! Perceptual fingerprints of images and the distance between them.

use vstd::arithmetic::power2::*;
use vstd::prelude::*;

use crate::raster::{luma8, luma_of, resize_triangle, triangle_resized, RgbRaster};

verus! {

/// Number of bits set in `x`.
pub open spec fn popcount(x: u64) -> nat
    decreases x,
{
    if x == 0 {
        0
    } else {
        (x % 2) as nat + popcount(x / 2)
    }
}

proof fn lemma_popcount_bound(x: u64, k: nat)
    requires
        (x as nat) < pow2(k),
    ensures
        popcount(x) <= k,
    decreases k,
{
    if x != 0 {
        if k == 0 {
            assert(pow2(0) == 1) by {
                reveal(pow2);
                vstd::arithmetic::power::lemma_pow0(2);
            }
        } else {
            lemma_pow2_unfold(k);
            lemma_popcount_bound(x / 2, (k - 1) as nat);
        }
    }
}

/// Number of differing bits between two fingerprints.
pub fn hamming_distance(hash1: u64, hash2: u64) -> (r: u32)
    ensures
        r as nat == popcount(hash1 ^ hash2),
        r <= 64,
{
    let total: u64 = hash1 ^ hash2;
    proof {
        lemma2_to64();
        lemma_popcount_bound(total, 64);
    }
    let mut x: u64 = total;
    let mut count: u32 = 0;
    while x != 0
        invariant
            count as nat + popcount(x) == popcount(total),
            popcount(total) <= 64,
        decreases x,
    {
        count = count + (x % 2) as u32;
        x = x / 2;
    }
    count
}

/// Number of cells in the down-sampled grid that a fingerprint is taken from.
pub const GRID_CELLS: usize = 64;

/// Sum of all samples of a grid.
pub open spec fn grid_sum(g: Seq<u8>) -> nat
    decreases g.len(),
{
    if g.len() == 0 {
        0
    } else {
        grid_sum(g.drop_last()) + g.last() as nat
    }
}

/// Every sample of the grid equals the first one.
pub open spec fn is_solid(g: Seq<u8>) -> bool {
    forall|i: int| 0 <= i < g.len() ==> #[trigger] g[i] == g[0]
}

/// Sample `i` of a 64-sample grid is at least the grid's arithmetic mean: 64 times the
/// sample is at least the sum.
pub open spec fn at_least_mean(g: Seq<u8>, i: int) -> bool {
    64 * (g[i] as nat) >= grid_sum(g)
}

/// The number whose bit `i` (for `i < n`) is set exactly when sample `i` is at least
/// the arithmetic mean of the 64-sample grid.
pub open spec fn bits_at_least(g: Seq<u8>, n: nat) -> nat
    decreases n,
{
    if n == 0 {
        0
    } else {
        bits_at_least(g, (n - 1) as nat) + if at_least_mean(g, n - 1) {
            pow2((n - 1) as nat)
        } else {
            0
        }
    }
}

/// The fingerprint of a 64-sample grid: all bits clear or all set for a solid grid
/// (by whether its value is below 128), otherwise bit `i` set iff sample `i` is at
/// least the mean.
pub open spec fn grid_hash(g: Seq<u8>) -> u64 {
    if is_solid(g) {
        if g[0] < 128 {
            0
        } else {
            u64::MAX
        }
    } else {
        bits_at_least(g, 64) as u64
    }
}

proof fn lemma_grid_sum_bound(g: Seq<u8>)
    ensures
        grid_sum(g) <= 255 * g.len(),
    decreases g.len(),
{
    if g.len() > 0 {
        lemma_grid_sum_bound(g.drop_last());
    }
}

proof fn lemma_bits_bound(g: Seq<u8>, n: nat)
    ensures
        bits_at_least(g, n) < pow2(n),
    decreases n,
{
    if n > 0 {
        lemma_bits_bound(g, (n - 1) as nat);
        lemma_pow2_unfold(n);
    } else {
        assert(pow2(0) == 1) by {
            reveal(pow2);
            vstd::arithmetic::power::lemma_pow0(2);
        }
    }
}

/// Fingerprint of a 64-sample luminance grid, taken in row-major order.
pub fn grid_fingerprint(grid: &Vec<u8>) -> (r: u64)
    requires
        grid@.len() == GRID_CELLS,
    ensures
        r == grid_hash(grid@),
{
    let mut sum: u32 = 0;
    let mut solid = true;
    let mut i: usize = 0;
    while i < GRID_CELLS
        invariant
            grid@.len() == GRID_CELLS,
            i <= GRID_CELLS,
            sum as nat == grid_sum(grid@.take(i as int)),
            solid <==> (forall|j: int| 0 <= j < i ==> #[trigger] grid@[j] == grid@[0]),
        decreases GRID_CELLS - i,
    {
        proof {
            assert(grid@.take(i as int + 1).drop_last() == grid@.take(i as int));
            lemma_grid_sum_bound(grid@.take(i as int));
        }
        sum = sum + grid[i] as u32;
        if grid[i] != grid[0] {
            solid = false;
        }
        i = i + 1;
    }
    assert(grid@.take(64) == grid@);
    if solid {
        return if grid[0] < 128 {
            0
        } else {
            u64::MAX
        };
    }
    proof {
        lemma_grid_sum_bound(grid@);
    }
    let mut hash: u64 = 0;
    let mut bit: u64 = 1;
    let mut k: usize = 0;
    proof {
        lemma2_to64();
        lemma_pow2_unfold(64);
    }
    while k < GRID_CELLS
        invariant
            grid@.len() == GRID_CELLS,
            k <= GRID_CELLS,
            sum as nat == grid_sum(grid@),
            sum <= 255 * 64,
            hash as nat == bits_at_least(grid@, k as nat),
            k < 64 ==> bit as nat == pow2(k as nat),
            pow2(64) == 0x10000000000000000,
            pow2(63) == 0x8000000000000000,
        decreases GRID_CELLS - k,
    {
        proof {
            lemma_bits_bound(grid@, k as nat);
            lemma_pow2_unfold((k + 1) as nat);
            if k < 63 {
                vstd::arithmetic::power2::lemma_pow2_strictly_increases((k + 1) as nat, 64);
            }
        }
        if 64 * (grid[k] as u32) >= sum {
            hash = hash + bit;
        }
        if k < 63 {
            bit = bit * 2;
        }
        k = k + 1;
    }
    hash
}

/// Side of the square grid that an image is reduced to before hashing.
pub const GRID_SIDE: u32 = 8;

/// The fingerprint of an image: its 8x8 triangle-filtered resampling, turned to
/// luminance and hashed by `grid_hash`.
pub open spec fn image_fingerprint(image: RgbRaster) -> u64 {
    grid_hash(luma_of(triangle_resized(image.data@, image.width as nat, image.height as nat, 8, 8)))
}

/// Perceptual fingerprint of an image: the image is resampled to 8x8 with a triangle
/// filter, turned to luminance, and the 64 samples are hashed by `grid_hash`.
pub fn calculate_fingerprint(image: &RgbRaster) -> (r: u64)
    requires
        image.wf(),
    ensures
        r == image_fingerprint(*image),
{
    let small = resize_triangle(image, GRID_SIDE, GRID_SIDE);
    let grid = luma8(&small);
    grid_fingerprint(&grid)
}

/// Images with the same size and pixels have the same fingerprint, however often it
/// is computed.
pub proof fn fingerprint_is_deterministic(a: RgbRaster, b: RgbRaster)
    requires
        a.width == b.width,
        a.height == b.height,
        a.data@ == b.data@,
    ensures
        image_fingerprint(a) == image_fingerprint(b),
{
}

/// A solid grid darker than mid-gray and a solid grid at least mid-gray get
/// fingerprints that differ in all 64 bits, so their distance exceeds 32.
pub proof fn solid_grids_of_opposite_brightness_differ(dark: Seq<u8>, light: Seq<u8>)
    requires
        dark.len() == 64,
        light.len() == 64,
        is_solid(dark),
        is_solid(light),
        dark[0] < 128,
        light[0] >= 128,
    ensures
        popcount(grid_hash(dark) ^ grid_hash(light)) == 64,
        popcount(grid_hash(dark) ^ grid_hash(light)) > 32,
{
    assert(0u64 ^ 0xffff_ffff_ffff_ffffu64 == 0xffff_ffff_ffff_ffffu64) by (bit_vector);
    lemma2_to64();
    lemma_popcount_all_ones(0xffff_ffff_ffff_ffffu64, 64);
}

proof fn lemma_popcount_all_ones(x: u64, k: nat)
    requires
        x as nat + 1 == pow2(k),
    ensures
        popcount(x) == k,
    decreases k,
{
    if k == 0 {
        assert(pow2(0) == 1) by {
            reveal(pow2);
            vstd::arithmetic::power::lemma_pow0(2);
        }
    } else {
        lemma_pow2_unfold(k);
        lemma_popcount_all_ones(x / 2, (k - 1) as nat);
    }
}

} // verus!
