//! Tile matrix geometry: tile sizes, matrix sizes and scale denominators of
//! the zoom levels of a map.

use crate::text::{decimal, u64_to_string};
use vstd::arithmetic::power2::{
    lemma2_to64, lemma2_to64_rest, lemma_pow2_pos, lemma_pow2_strictly_increases, pow2,
};
use vstd::bits::lemma_u64_shl_is_mul;
use vstd::prelude::*;

verus! {

/// Edge length of a tile in blocks at zoom-out level 0.
pub const BASE_BLOCKS_PER_TILE: u64 = 32;

/// Edge length of the addressable world in blocks.
pub const WORLD_SIZE: u64 = 65535;

/// Edge length in pixels of a tile whose tile scale is 0.
pub const BASE_TILE_SIZE: u64 = 128;

/// Largest tile scale whose tile size fits in 64 bits.
pub const MAX_TILE_SCALE: u64 = 56;

/// First zoom-out level at which a single tile covers the whole world.
pub const SINGLE_TILE_ZOOMOUT: u64 = 11;

/// The size of a pixel at the reference scale is 28 / 100000 of a metre:
/// this is the 28.
pub const PIXEL_SIZE_NUMERATOR: u64 = 28;

/// The size of a pixel at the reference scale is 28 / 100000 of a metre:
/// this is the 100000.
pub const PIXEL_SIZE_DENOMINATOR: u64 = 100000;

/// Edge length in pixels of a tile with the given tile scale: `128 * 2^tilescale`.
pub open spec fn tile_size_spec(tilescale: nat) -> nat {
    BASE_TILE_SIZE as nat * pow2(tilescale)
}

/// Number of blocks along the edge of one tile at a zoom-out level: `32 * 2^zoomout`.
pub open spec fn blocks_per_tile(zoomout: nat) -> nat {
    BASE_BLOCKS_PER_TILE as nat * pow2(zoomout)
}

/// Number of tiles along one edge of the world at a zoom-out level: the world
/// size divided by the blocks per tile, rounded up.
pub open spec fn matrix_size_spec(zoomout: nat) -> nat {
    ((WORLD_SIZE as nat + blocks_per_tile(zoomout) - 1) / blocks_per_tile(zoomout) as int) as nat
}

/// Edge length in pixels of a tile with the given tile scale.
pub fn tile_size(tilescale: u64) -> (size: u64)
    requires
        tilescale <= MAX_TILE_SCALE,
    ensures
        size == tile_size_spec(tilescale as nat),
        size > 0,
{
    proof {
        lemma2_to64_rest();
        lemma_pow2_pos(tilescale as nat);
        if tilescale < MAX_TILE_SCALE {
            lemma_pow2_strictly_increases(tilescale as nat, MAX_TILE_SCALE as nat);
        }
        assert(128 * pow2(tilescale as nat) <= 128 * pow2(56)) by (nonlinear_arith)
            requires
                pow2(tilescale as nat) <= pow2(56),
        ;
        lemma_u64_shl_is_mul(128u64, tilescale);
    }
    128u64 << tilescale
}

/// Number of tiles along one edge of the world at a zoom-out level.
pub fn matrix_size(zoomout: u64) -> (size: u64)
    ensures
        size == matrix_size_spec(zoomout as nat),
        size >= 1,
{
    proof {
        lemma2_to64();
        lemma_matrix_size_is_ceiling(zoomout as nat);
    }
    if zoomout >= SINGLE_TILE_ZOOMOUT {
        proof {
            if zoomout > SINGLE_TILE_ZOOMOUT {
                lemma_pow2_strictly_increases(SINGLE_TILE_ZOOMOUT as nat, zoomout as nat);
            }
            let blocks = blocks_per_tile(zoomout as nat) as int;
            assert(blocks >= 65536);
            assert((65535 + blocks - 1) / blocks == 1) by (nonlinear_arith)
                requires
                    blocks >= 65536,
            ;
        }
        1
    } else {
        proof {
            lemma_pow2_strictly_increases(zoomout as nat, SINGLE_TILE_ZOOMOUT as nat);
            assert(32 * pow2(zoomout as nat) <= 32 * 2048) by (nonlinear_arith)
                requires
                    pow2(zoomout as nat) <= 2048,
            ;
            lemma_u64_shl_is_mul(32u64, zoomout);
        }
        let blocks: u64 = 32u64 << zoomout;
        (WORLD_SIZE + blocks - 1) / blocks
    }
}

/// The matrix size is the world size divided by the blocks per tile, rounded
/// up: it is the least number of tiles that cover the world's edge.
pub proof fn lemma_matrix_size_is_ceiling(zoomout: nat)
    ensures
        matrix_size_spec(zoomout) >= 1,
        (matrix_size_spec(zoomout) - 1) * blocks_per_tile(zoomout) < WORLD_SIZE,
        WORLD_SIZE <= matrix_size_spec(zoomout) * blocks_per_tile(zoomout),
{
    lemma_pow2_pos(zoomout);
    let blocks = blocks_per_tile(zoomout) as int;
    let world = WORLD_SIZE as int;
    assert(blocks >= 32) by (nonlinear_arith)
        requires
            blocks == 32 * pow2(zoomout),
            pow2(zoomout) >= 1,
    ;
    let size = (world + blocks - 1) / blocks;
    assert(size >= 1 && (size - 1) * blocks < world && world <= size * blocks)
        by (nonlinear_arith)
        requires
            blocks >= 32,
            world == 65535,
            size == (world + blocks - 1) / blocks,
    ;
}

/// No matrix has more than 2048 tiles along an edge.
pub proof fn lemma_matrix_size_bound(zoomout: nat)
    ensures
        1 <= matrix_size_spec(zoomout) <= 2048,
{
    lemma_matrix_size_is_ceiling(zoomout);
    lemma_pow2_pos(zoomout);
    let size = matrix_size_spec(zoomout) as int;
    let ratio = pow2(zoomout) as int;
    assert(size <= 2048) by (nonlinear_arith)
        requires
            (size - 1) * (32 * ratio) < 65535,
            ratio >= 1,
    ;
}

/// Zooming out never needs more tiles: the matrix size does not grow with the
/// zoom-out level.
pub proof fn lemma_matrix_size_non_increasing(zoomout1: nat, zoomout2: nat)
    requires
        zoomout1 < zoomout2,
    ensures
        matrix_size_spec(zoomout1) >= matrix_size_spec(zoomout2),
{
    lemma_matrix_size_is_ceiling(zoomout1);
    lemma_matrix_size_is_ceiling(zoomout2);
    lemma_pow2_strictly_increases(zoomout1, zoomout2);
    lemma_pow2_pos(zoomout1);
    let size1 = matrix_size_spec(zoomout1) as int;
    let size2 = matrix_size_spec(zoomout2) as int;
    let blocks1 = blocks_per_tile(zoomout1) as int;
    let blocks2 = blocks_per_tile(zoomout2) as int;
    assert(0 < blocks1 < blocks2) by (nonlinear_arith)
        requires
            blocks1 == 32 * pow2(zoomout1),
            blocks2 == 32 * pow2(zoomout2),
            0 < pow2(zoomout1) < pow2(zoomout2),
    ;
    assert(size1 >= size2) by (nonlinear_arith)
        requires
            0 < blocks1 < blocks2,
            size1 >= 1,
            size2 >= 1,
            (size2 - 1) * blocks2 < 65535,
            65535 <= size1 * blocks1,
    ;
}

/// A scale denominator as an exact fraction: `numerator * 2^shift / denominator`.
#[derive(Clone, Copy, Debug, PartialEq, Eq, Structural)]
pub struct ScaleDenominator {
    pub numerator: u64,
    pub shift: u64,
    pub denominator: u128,
}

impl ScaleDenominator {
    /// The dividend of the fraction: `numerator * 2^shift`.
    pub open spec fn dividend(self) -> nat {
        self.numerator as nat * pow2(self.shift as nat)
    }

    /// Whether the fraction stands for a number: its denominator is not zero.
    pub open spec fn is_finite(self) -> bool {
        self.denominator > 0
    }

    /// Whether this fraction is smaller than `other`, for two fractions that
    /// stand for numbers.
    pub open spec fn less_than(self, other: ScaleDenominator) -> bool
        recommends
            self.is_finite(),
            other.is_finite(),
    {
        self.dividend() * other.denominator < other.dividend() * self.denominator
    }
}

/// The scale denominator of a zoom-out level for tiles of `tile_size` pixels.
/// With a pixel size of 28 / 100000 and 32 blocks to a tile, the scale at
/// level 0 is `tile_size * (28 / 100000) / 32`, and the scale denominator of
/// a level is `(1 / scale) * 2^zoomout`: the fraction
/// `32 * 100000 * 2^zoomout / (28 * tile_size)`.
pub open spec fn scale_denominator_spec(tile_size: u64, zoomout: u64) -> ScaleDenominator {
    ScaleDenominator {
        numerator: (BASE_BLOCKS_PER_TILE * PIXEL_SIZE_DENOMINATOR) as u64,
        shift: zoomout,
        denominator: (tile_size * PIXEL_SIZE_NUMERATOR) as u128,
    }
}

/// The scale denominator of a zoom-out level for tiles of `tile_size` pixels.
pub fn scale_denominator(tile_size: u64, zoomout: u64) -> (scale: ScaleDenominator)
    requires
        tile_size > 0,
    ensures
        scale == scale_denominator_spec(tile_size, zoomout),
        scale.is_finite(),
{
    let numerator: u64 = BASE_BLOCKS_PER_TILE * PIXEL_SIZE_DENOMINATOR;
    let pixels: u128 = tile_size as u128;
    let pixel_size: u128 = PIXEL_SIZE_NUMERATOR as u128;
    assert(pixels * pixel_size <= u64::MAX * 28) by (nonlinear_arith)
        requires
            pixels <= u64::MAX,
            pixel_size == 28,
    ;
    ScaleDenominator { numerator: numerator, shift: zoomout, denominator: pixels * pixel_size }
}

/// Zooming out makes the scale coarser: for one tile size, the scale
/// denominator grows strictly with the zoom-out level.
pub proof fn lemma_scale_denominator_increasing(tile_size: u64, zoomout1: u64, zoomout2: u64)
    requires
        tile_size > 0,
        zoomout1 < zoomout2,
    ensures
        scale_denominator_spec(tile_size, zoomout1).less_than(
            scale_denominator_spec(tile_size, zoomout2),
        ),
{
    lemma_pow2_strictly_increases(zoomout1 as nat, zoomout2 as nat);
    let low = pow2(zoomout1 as nat) as int;
    let high = pow2(zoomout2 as nat) as int;
    let denominator = tile_size * 28;
    assert((3_200_000 * low) * denominator < (3_200_000 * high) * denominator)
        by (nonlinear_arith)
        requires
            low < high,
            denominator > 0,
    ;
}

/// The corner of the world from which tiles are counted, in blocks: half the
/// world to the left of the origin, and half the world and one base tile
/// above it.
pub open spec fn top_left_corner_spec() -> (int, int) {
    (-(WORLD_SIZE as int / 2), WORLD_SIZE as int / 2 + BASE_BLOCKS_PER_TILE as int)
}

/// The corner of the world from which tiles are counted. It is the same for
/// every matrix.
pub fn top_left_corner() -> (corner: (i64, i64))
    ensures
        (corner.0 as int, corner.1 as int) == top_left_corner_spec(),
        corner == (-32767i64, 32799i64),
{
    let half: i64 = (WORLD_SIZE / 2) as i64;
    (-half, half + (BASE_BLOCKS_PER_TILE as i64))
}

/// The geometry of one zoom-out level of a map.
#[derive(Debug, PartialEq, Eq)]
pub struct TileMatrix {
    /// The zoom-out level, written in decimal.
    pub identifier: String,
    /// Edge length of a tile in pixels.
    pub tile_size: u64,
    pub scale_denominator: ScaleDenominator,
    pub top_left_corner: (i64, i64),
    /// Number of tiles along one edge of the world.
    pub matrix_size: u64,
}

/// The mathematical value of a [`TileMatrix`].
pub struct TileMatrixView {
    pub identifier: Seq<char>,
    pub tile_size: nat,
    pub scale_denominator: ScaleDenominator,
    pub top_left_corner: (int, int),
    pub matrix_size: nat,
}

impl View for TileMatrix {
    type V = TileMatrixView;

    open spec fn view(&self) -> TileMatrixView {
        TileMatrixView {
            identifier: self.identifier@,
            tile_size: self.tile_size as nat,
            scale_denominator: self.scale_denominator,
            top_left_corner: (self.top_left_corner.0 as int, self.top_left_corner.1 as int),
            matrix_size: self.matrix_size as nat,
        }
    }
}

impl Clone for TileMatrix {
    fn clone(&self) -> (copy: TileMatrix)
        ensures
            copy@ == self@,
    {
        TileMatrix {
            identifier: self.identifier.clone(),
            tile_size: self.tile_size,
            scale_denominator: self.scale_denominator,
            top_left_corner: (self.top_left_corner.0, self.top_left_corner.1),
            matrix_size: self.matrix_size,
        }
    }
}

/// The tile matrix of a zoom-out level for tiles of `tile_size` pixels.
pub open spec fn tile_matrix_spec(tile_size: u64, zoomout: u64) -> TileMatrixView {
    TileMatrixView {
        identifier: decimal(zoomout as nat),
        tile_size: tile_size as nat,
        scale_denominator: scale_denominator_spec(tile_size, zoomout),
        top_left_corner: top_left_corner_spec(),
        matrix_size: matrix_size_spec(zoomout as nat),
    }
}

/// The tile matrices of a map with tiles of `tile_size` pixels: one for each
/// zoom-out level from 0 to `mapzoomout`, in ascending order.
pub open spec fn tile_matrices_spec(tile_size: u64, mapzoomout: u64) -> Seq<TileMatrixView> {
    Seq::new((mapzoomout + 1) as nat, |zoomout: int| tile_matrix_spec(tile_size, zoomout as u64))
}

/// The mathematical values of a list of tile matrices.
pub open spec fn matrix_views(matrices: Seq<TileMatrix>) -> Seq<TileMatrixView> {
    matrices.map_values(|matrix: TileMatrix| matrix@)
}

impl TileMatrix {
    /// The tile matrix of a zoom-out level for tiles of `tile_size` pixels.
    pub fn new(tile_size: u64, zoomout: u64) -> (matrix: TileMatrix)
        requires
            tile_size > 0,
        ensures
            matrix@ == tile_matrix_spec(tile_size, zoomout),
            matrix.scale_denominator.is_finite(),
    {
        TileMatrix {
            identifier: u64_to_string(zoomout),
            tile_size: tile_size,
            scale_denominator: scale_denominator(tile_size, zoomout),
            top_left_corner: top_left_corner(),
            matrix_size: matrix_size(zoomout),
        }
    }

    /// Whether two tile matrices have the same value.
    pub fn same(&self, other: &TileMatrix) -> (same: bool)
        ensures
            same == (self@ == other@),
    {
        self.identifier == other.identifier && self.tile_size == other.tile_size
            && self.scale_denominator == other.scale_denominator && self.top_left_corner.0
            == other.top_left_corner.0 && self.top_left_corner.1 == other.top_left_corner.1
            && self.matrix_size == other.matrix_size
    }
}

/// The tile matrices of a map with tiles of `tile_size` pixels and the zoom-out
/// levels 0 to `mapzoomout`.
pub fn tile_matrices(tile_size: u64, mapzoomout: u64) -> (matrices: Vec<TileMatrix>)
    requires
        tile_size > 0,
    ensures
        matrix_views(matrices@) == tile_matrices_spec(tile_size, mapzoomout),
        matrices@.len() == mapzoomout + 1,
{
    let mut matrices: Vec<TileMatrix> = Vec::new();
    let mut zoomout: u64 = 0;
    loop
        invariant_except_break
            matrices@.len() == zoomout,
            forall|i: int|
                0 <= i < zoomout ==> (#[trigger] matrices@[i])@ == tile_matrix_spec(
                    tile_size,
                    i as u64,
                ),
        invariant
            tile_size > 0,
            zoomout <= mapzoomout,
        ensures
            zoomout == mapzoomout,
            matrices@.len() == mapzoomout + 1,
            forall|i: int|
                0 <= i <= mapzoomout ==> (#[trigger] matrices@[i])@ == tile_matrix_spec(
                    tile_size,
                    i as u64,
                ),
        decreases mapzoomout - zoomout,
    {
        matrices.push(TileMatrix::new(tile_size, zoomout));
        if zoomout == mapzoomout {
            break ;
        }
        zoomout = zoomout + 1;
    }
    assert(matrix_views(matrices@) =~= tile_matrices_spec(tile_size, mapzoomout));
    matrices
}

/// A map with the largest zoom-out level `mapzoomout` has `mapzoomout + 1`
/// tile matrices, and the matrix at each position is the one of the zoom-out
/// level of that number, named by the number in decimal.
pub proof fn lemma_tile_matrices_by_level(tile_size: u64, mapzoomout: u64)
    ensures
        tile_matrices_spec(tile_size, mapzoomout).len() == mapzoomout + 1,
        forall|zoomout: int|
            0 <= zoomout <= mapzoomout ==> {
                let matrix = #[trigger] tile_matrices_spec(tile_size, mapzoomout)[zoomout];
                &&& matrix == tile_matrix_spec(tile_size, zoomout as u64)
                &&& matrix.identifier == decimal(zoomout as nat)
                &&& matrix.tile_size == tile_size
                &&& matrix.top_left_corner == top_left_corner_spec()
            },
{
}

} // verus!
