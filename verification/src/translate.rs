//! Translation of a WMTS tile address into the tile address of a Dynmap
//! server.

use crate::geometry::{lemma_matrix_size_bound, matrix_size, matrix_size_spec};
use crate::media::{media_type, media_type_of_extension};
use crate::text::{parse_i64, parse_i64_spec};
use vstd::arithmetic::power2::{lemma2_to64, lemma2_to64_rest, lemma_pow2_pos, lemma_pow2_strictly_increases, pow2};
use vstd::bits::lemma_u64_shl_is_mul;
use vstd::prelude::*;
use vstd::string::*;

verus! {

/// Why a tile request of a client cannot be served.
#[derive(Clone, Copy, Debug, PartialEq, Eq)]
pub enum ClientRequestMalformed {
    /// The file name has no `.`, or nothing after its last `.`.
    MissingExtension,
    /// The file name has nothing before its last `.`.
    MissingStem,
    /// What stands before the last `.` is no 64-bit signed integer.
    InvalidRow,
    /// No media type is registered for the extension.
    UnknownExtension,
    /// The translated coordinates do not fit in 64-bit signed integers.
    OutOfRange,
}

/// The tile of a Dynmap server that answers a WMTS tile request.
#[derive(Clone, Debug, PartialEq, Eq)]
pub struct TileAddress {
    /// Zoom-out level of the tile.
    pub zoom: u64,
    /// Horizontal tile coordinate.
    pub x: i64,
    /// Vertical tile coordinate.
    pub z: i64,
    /// File extension of the tile image.
    pub extension: String,
    /// Media type of the tile image.
    pub content_type: String,
}

/// The mathematical value of a [`TileAddress`].
pub struct TileAddressView {
    pub zoom: nat,
    pub x: int,
    pub z: int,
    pub extension: Seq<char>,
    pub content_type: Seq<char>,
}

impl View for TileAddress {
    type V = TileAddressView;

    open spec fn view(&self) -> TileAddressView {
        TileAddressView {
            zoom: self.zoom as nat,
            x: self.x as int,
            z: self.z as int,
            extension: self.extension@,
            content_type: self.content_type@,
        }
    }
}

/// Position of the last `.` in a file name, if it has one.
pub open spec fn last_dot(name: Seq<char>) -> Option<int>
    decreases name.len(),
{
    if name.len() == 0 {
        None
    } else if name.last() == '.' {
        Some(name.len() - 1)
    } else {
        last_dot(name.drop_last())
    }
}

/// The tile row and the extension that a file name of the form
/// `<row>.<extension>` holds. The name is cut at its last `.`; both parts must
/// be non-empty, and the first must write a 64-bit signed integer.
pub open spec fn parse_file_name_spec(name: Seq<char>) -> Result<
    (i64, Seq<char>),
    ClientRequestMalformed,
> {
    match last_dot(name) {
        None => Err(ClientRequestMalformed::MissingExtension),
        Some(dot) => if dot + 1 == name.len() {
            Err(ClientRequestMalformed::MissingExtension)
        } else if dot == 0 {
            Err(ClientRequestMalformed::MissingStem)
        } else {
            match parse_i64_spec(name.take(dot)) {
                None => Err(ClientRequestMalformed::InvalidRow),
                Some(row) => Ok((row, name.skip(dot + 1))),
            }
        },
    }
}

/// Index of the tile at the centre of the matrix of a zoom-out level.
pub open spec fn matrix_centre(tile_matrix: nat) -> int {
    matrix_size_spec(tile_matrix) as int / 2
}

/// Horizontal Dynmap coordinate of a tile column: the distance from the
/// centre column, in tiles of zoom-out level 0.
pub open spec fn dynmap_x(tile_matrix: nat, tile_col: int) -> int {
    (tile_col - matrix_centre(tile_matrix)) * pow2(tile_matrix)
}

/// Vertical Dynmap coordinate of a tile row: the distance from the centre
/// row, in tiles of zoom-out level 0, counted upwards.
pub open spec fn dynmap_z(tile_matrix: nat, tile_row: int) -> int {
    -((tile_row - matrix_centre(tile_matrix)) * pow2(tile_matrix))
}

/// Whether `v` is the value of a 64-bit signed integer.
pub open spec fn fits_i64(v: int) -> bool {
    i64::MIN <= v <= i64::MAX
}

/// The Dynmap coordinates of a WMTS tile, where both fit in 64 bits.
pub open spec fn translate_spec(tile_matrix: nat, tile_col: int, tile_row: int) -> Option<
    (i64, i64),
> {
    let x = dynmap_x(tile_matrix, tile_col);
    let z = dynmap_z(tile_matrix, tile_row);
    if fits_i64(x) && fits_i64(z) {
        Some((x as i64, z as i64))
    } else {
        None
    }
}

/// Finds the last `.` of a file name.
fn find_last_dot(name: &str) -> (dot: Option<usize>)
    ensures
        match dot {
            Some(i) => last_dot(name@) == Some(i as int),
            None => last_dot(name@) is None,
        },
        dot matches Some(i) ==> i < name@.len(),
{
    let len = name.unicode_len();
    let mut end: usize = len;
    assert(name@.take(len as int) =~= name@);
    while end > 0
        invariant
            end <= len,
            len == name@.len(),
            last_dot(name@) == last_dot(name@.take(end as int)),
        decreases end,
    {
        let c = name.get_char(end - 1);
        let ghost prefix = name@.take(end as int);
        assert(prefix.last() == c);
        if c == '.' {
            return Some(end - 1);
        }
        assert(prefix.drop_last() =~= name@.take(end - 1));
        end = end - 1;
    }
    None
}

/// Reads the tile row and the extension from a file name of the form
/// `<row>.<extension>`.
pub fn parse_file_name(name: &str) -> (parsed: Result<(i64, String), ClientRequestMalformed>)
    ensures
        match parsed {
            Ok((row, extension)) => parse_file_name_spec(name@) == Ok::<
                (i64, Seq<char>),
                ClientRequestMalformed,
            >((row, extension@)),
            Err(e) => parse_file_name_spec(name@) == Err::<
                (i64, Seq<char>),
                ClientRequestMalformed,
            >(e),
        },
{
    let len = name.unicode_len();
    match find_last_dot(name) {
        None => Err(ClientRequestMalformed::MissingExtension),
        Some(dot) => {
            if dot + 1 == len {
                Err(ClientRequestMalformed::MissingExtension)
            } else if dot == 0 {
                Err(ClientRequestMalformed::MissingStem)
            } else {
                let stem = name.substring_char(0, dot);
                assert(name@.subrange(0, dot as int) =~= name@.take(dot as int));
                match parse_i64(stem) {
                    None => Err(ClientRequestMalformed::InvalidRow),
                    Some(row) => {
                        let extension = name.substring_char(dot + 1, len);
                        assert(name@.subrange(dot + 1, len as int) =~= name@.skip(dot + 1));
                        Ok((row, String::from_str(extension)))
                    },
                }
            }
        },
    }
}

/// The answer to a tile request whose file name has been read and whose
/// extension has been looked up: `row` and `extension` are the two parts of
/// the file name, `content_type` the media type found for the extension.
pub open spec fn tile_address_spec(
    tile_matrix: nat,
    tile_col: int,
    tile_row: int,
    extension: Seq<char>,
    content_type: Option<Seq<char>>,
) -> Result<TileAddressView, ClientRequestMalformed> {
    match content_type {
        None => Err(ClientRequestMalformed::UnknownExtension),
        Some(media) => match translate_spec(tile_matrix, tile_col, tile_row) {
            None => Err(ClientRequestMalformed::OutOfRange),
            Some((x, z)) => Ok(
                TileAddressView {
                    zoom: tile_matrix,
                    x: x as int,
                    z: z as int,
                    extension: extension,
                    content_type: media,
                },
            ),
        },
    }
}

/// The answer to a tile request: the file name is read first, then its
/// extension is looked up, then the coordinates are translated. The first
/// step that fails decides the error.
pub open spec fn resolve_tile_spec(tile_matrix: nat, tile_col: int, file: Seq<char>) -> Result<
    TileAddressView,
    ClientRequestMalformed,
> {
    match parse_file_name_spec(file) {
        Err(e) => Err(e),
        Ok((row, extension)) => tile_address_spec(
            tile_matrix,
            tile_col,
            row as int,
            extension,
            media_type_of_extension(extension),
        ),
    }
}

/// Distance of a tile index from the centre of its matrix, scaled to tiles of
/// zoom-out level 0, with the sign turned where `upwards` is set. `None` where
/// the result does not fit in 64 bits.
fn scaled_offset(tile_matrix: u64, index: i64, upwards: bool) -> (scaled: Option<i64>)
    ensures
        ({
            let offset = (index - matrix_centre(tile_matrix as nat)) * pow2(tile_matrix as nat);
            let value = if upwards {
                -offset
            } else {
                offset
            };
            scaled == if fits_i64(value) {
                Some(value as i64)
            } else {
                None
            }
        }),
{
    let size = matrix_size(tile_matrix);
    proof {
        lemma_matrix_size_bound(tile_matrix as nat);
        lemma_pow2_pos(tile_matrix as nat);
    }
    let centre: i128 = (size / 2) as i128;
    let distance: i128 = index as i128 - centre;
    let ghost ratio_spec = pow2(tile_matrix as nat) as int;
    if distance == 0 {
        assert(distance * ratio_spec == 0) by (nonlinear_arith)
            requires
                distance == 0,
        ;
        return Some(0);
    }
    if tile_matrix >= 64 {
        proof {
            lemma2_to64();
            if tile_matrix > 64 {
                lemma_pow2_strictly_increases(64, tile_matrix as nat);
            }
            assert(distance * ratio_spec >= 0x10000000000000000 || distance * ratio_spec
                <= -0x10000000000000000) by (nonlinear_arith)
                requires
                    distance != 0,
                    ratio_spec >= 0x10000000000000000,
            ;
        }
        return None;
    }
    proof {
        lemma2_to64();
        lemma2_to64_rest();
        if tile_matrix < 63 {
            lemma_pow2_strictly_increases(tile_matrix as nat, 63);
        }
        lemma_u64_shl_is_mul(1u64, tile_matrix);
    }
    let ratio: u64 = 1u64 << tile_matrix;
    assert(ratio == ratio_spec);
    assert(-0x7fff_ffff_ffff_ffff_ffff_ffff_ffff_ffff <= distance * ratio
        <= 0x7fff_ffff_ffff_ffff_ffff_ffff_ffff_ffff) by (nonlinear_arith)
        requires
            -0x8000_0000_0000_0400 <= distance <= 0x8000_0000_0000_0000,
            0 < ratio <= 0x8000_0000_0000_0000,
    ;
    let offset: i128 = distance * (ratio as i128);
    let value: i128 = if upwards {
        -offset
    } else {
        offset
    };
    if -9223372036854775808 <= value && value <= 9223372036854775807 {
        Some(value as i64)
    } else {
        None
    }
}

/// Translates the column and the row of a WMTS tile into Dynmap coordinates.
/// `None` where a coordinate does not fit in 64 bits.
pub fn translate(tile_matrix: u64, tile_col: i64, tile_row: i64) -> (coordinates: Option<
    (i64, i64),
>)
    ensures
        coordinates == translate_spec(tile_matrix as nat, tile_col as int, tile_row as int),
{
    match scaled_offset(tile_matrix, tile_col, false) {
        None => None,
        Some(x) => match scaled_offset(tile_matrix, tile_row, true) {
            None => None,
            Some(z) => Some((x, z)),
        },
    }
}

/// Answers a tile request whose file name has been read and whose extension
/// has been looked up.
pub fn tile_address(
    tile_matrix: u64,
    tile_col: i64,
    tile_row: i64,
    extension: String,
    content_type: Option<String>,
) -> (address: Result<TileAddress, ClientRequestMalformed>)
    ensures
        ({
            let expected = tile_address_spec(
                tile_matrix as nat,
                tile_col as int,
                tile_row as int,
                extension@,
                match content_type {
                    Some(media) => Some(media@),
                    None => None,
                },
            );
            match address {
                Ok(a) => expected == Ok::<TileAddressView, ClientRequestMalformed>(a@),
                Err(e) => expected == Err::<TileAddressView, ClientRequestMalformed>(e),
            }
        }),
{
    match content_type {
        None => Err(ClientRequestMalformed::UnknownExtension),
        Some(media) => match translate(tile_matrix, tile_col, tile_row) {
            None => Err(ClientRequestMalformed::OutOfRange),
            Some((x, z)) => Ok(
                TileAddress { zoom: tile_matrix, x: x, z: z, extension: extension, content_type: media },
            ),
        },
    }
}

/// Answers a WMTS tile request: reads the tile row and the extension from the
/// file name, looks up the media type of the extension, and translates the
/// tile's column and row into Dynmap coordinates.
pub fn resolve_tile(tile_matrix: u64, tile_col: i64, file: &str) -> (address: Result<
    TileAddress,
    ClientRequestMalformed,
>)
    ensures
        match address {
            Ok(a) => resolve_tile_spec(tile_matrix as nat, tile_col as int, file@) == Ok::<
                TileAddressView,
                ClientRequestMalformed,
            >(a@),
            Err(e) => resolve_tile_spec(tile_matrix as nat, tile_col as int, file@) == Err::<
                TileAddressView,
                ClientRequestMalformed,
            >(e),
        },
{
    match parse_file_name(file) {
        Err(e) => Err(e),
        Ok((row, extension)) => {
            let content_type = media_type(extension.as_str());
            tile_address(tile_matrix, tile_col, row, extension, content_type)
        },
    }
}

/// The tile at the centre of a matrix is the tile at the origin of the
/// Dynmap coordinates, at every zoom-out level.
pub proof fn lemma_centre_is_origin(tile_matrix: nat)
    ensures
        translate_spec(tile_matrix, matrix_centre(tile_matrix), matrix_centre(tile_matrix)) == Some(
            (0i64, 0i64),
        ),
{
    let ratio = pow2(tile_matrix) as int;
    assert(0 * ratio == 0) by (nonlinear_arith);
}

} // verus!
