//! The answer to a tile request: which tile of the Dynmap server to fetch,
//! and how.

use crate::dynmap::{tile_url_spec, Dynmap, UpstreamRequest, UpstreamRequestView};
use crate::translate::{resolve_tile, resolve_tile_spec, ClientRequestMalformed, TileAddress, TileAddressView};
use vstd::prelude::*;

verus! {

/// What to do for a tile request: the tile to fetch, and the request that
/// fetches it. The tile's media type is the content type of the response.
#[derive(Clone, Debug, PartialEq, Eq)]
pub struct TileFetch {
    pub address: TileAddress,
    pub request: UpstreamRequest,
}

/// The request that fetches the tile at `address` of a map of a world from
/// the server at `base`: it asks for the tile's address and accepts the
/// tile's media type.
pub open spec fn fetch_request_spec(
    base: Seq<char>,
    world: Seq<char>,
    map: Seq<char>,
    address: TileAddressView,
) -> UpstreamRequestView {
    UpstreamRequestView {
        url: tile_url_spec(base, world, map, address.zoom, address.x, address.z, address.extension),
        accept: Some(address.content_type),
    }
}

/// Decides what to do for a WMTS tile request: the tile address is resolved
/// from the request, and the request to the Dynmap server is made from the
/// address. A request that cannot be resolved leads to no fetch.
pub fn plan_tile_fetch(
    dynmap: &Dynmap,
    world: &str,
    map: &str,
    tile_matrix: u64,
    tile_col: i64,
    file: &str,
) -> (plan: Result<TileFetch, ClientRequestMalformed>)
    ensures
        match plan {
            Ok(fetch) => resolve_tile_spec(tile_matrix as nat, tile_col as int, file@) == Ok::<
                TileAddressView,
                ClientRequestMalformed,
            >(fetch.address@) && fetch.request@ == fetch_request_spec(
                dynmap@,
                world@,
                map@,
                fetch.address@,
            ),
            Err(e) => resolve_tile_spec(tile_matrix as nat, tile_col as int, file@) == Err::<
                TileAddressView,
                ClientRequestMalformed,
            >(e),
        },
{
    match resolve_tile(tile_matrix, tile_col, file) {
        Err(e) => Err(e),
        Ok(address) => {
            let request = dynmap.tile_request(
                world,
                map,
                address.zoom,
                address.x,
                address.z,
                address.extension.as_str(),
                address.content_type.clone(),
            );
            Ok(TileFetch { address: address, request: request })
        },
    }
}

} // verus!
