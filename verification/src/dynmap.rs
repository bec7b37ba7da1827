//! The configuration that a Dynmap server publishes, and the requests that
//! fetch it and its tiles.

use crate::media::{media_type, media_type_of_extension};
use crate::text::{i64_to_string, signed_decimal};
use vstd::prelude::*;
use vstd::string::*;

verus! {

/// One rendering of a world.
#[derive(Clone, Debug, PartialEq, Eq)]
pub struct WorldMap {
    pub name: String,
    pub title: String,
    pub prefix: String,
    pub perspective: String,
    pub scale: u64,
    /// Decides the tile size in pixels: `128 * 2^tilescale`.
    pub tilescale: u64,
    /// The largest zoom-out level of the map.
    pub mapzoomout: u64,
    /// File extension of the map's tile images.
    pub image_format: String,
}

/// A world and its maps.
#[derive(Clone, Debug, PartialEq, Eq)]
pub struct World {
    pub name: String,
    pub title: String,
    pub maps: Vec<WorldMap>,
}

/// What a Dynmap server reports about itself.
#[derive(Clone, Debug, PartialEq, Eq)]
pub struct Configuration {
    pub worlds: Vec<World>,
}

/// The mathematical value of a [`WorldMap`].
pub struct WorldMapView {
    pub name: Seq<char>,
    pub title: Seq<char>,
    pub prefix: Seq<char>,
    pub perspective: Seq<char>,
    pub scale: u64,
    pub tilescale: u64,
    pub mapzoomout: u64,
    pub image_format: Seq<char>,
}

/// The mathematical value of a [`World`].
pub struct WorldView {
    pub name: Seq<char>,
    pub title: Seq<char>,
    pub maps: Seq<WorldMapView>,
}

/// The mathematical value of a [`Configuration`].
pub struct ConfigurationView {
    pub worlds: Seq<WorldView>,
}

impl View for WorldMap {
    type V = WorldMapView;

    open spec fn view(&self) -> WorldMapView {
        WorldMapView {
            name: self.name@,
            title: self.title@,
            prefix: self.prefix@,
            perspective: self.perspective@,
            scale: self.scale,
            tilescale: self.tilescale,
            mapzoomout: self.mapzoomout,
            image_format: self.image_format@,
        }
    }
}

impl View for World {
    type V = WorldView;

    open spec fn view(&self) -> WorldView {
        WorldView {
            name: self.name@,
            title: self.title@,
            maps: self.maps@.map_values(|map: WorldMap| map@),
        }
    }
}

impl View for Configuration {
    type V = ConfigurationView;

    open spec fn view(&self) -> ConfigurationView {
        ConfigurationView { worlds: self.worlds@.map_values(|world: World| world@) }
    }
}

/// The prefix that marks the zoom-out level in a tile's file name: nothing at
/// level 0, otherwise one `z` per level and a closing `_`.
pub open spec fn zoom_prefix_spec(zoom: nat) -> Seq<char> {
    if zoom == 0 {
        Seq::<char>::empty()
    } else {
        Seq::new(zoom, |i: int| 'z').push('_')
    }
}

/// The address of a tile on a Dynmap server whose address is `base`.
pub open spec fn tile_url_spec(
    base: Seq<char>,
    world: Seq<char>,
    map: Seq<char>,
    zoom: nat,
    x: int,
    z: int,
    image_format: Seq<char>,
) -> Seq<char> {
    base + "/tiles/"@ + world + "/"@ + map + "/0_0/"@ + zoom_prefix_spec(zoom) + signed_decimal(x)
        + "_"@ + signed_decimal(z) + "."@ + image_format
}

/// The address of the configuration of a Dynmap server whose address is `base`.
pub open spec fn configuration_url_spec(base: Seq<char>) -> Seq<char> {
    base + "/up/configuration"@
}

/// The prefix that marks the zoom-out level in a tile's file name. Every level
/// is served: the prefix grows by one character per level.
pub fn zoom_prefix(zoom: u64) -> (prefix: String)
    ensures
        prefix@ == zoom_prefix_spec(zoom as nat),
{
    let mut prefix = String::new();
    if zoom == 0 {
        return prefix;
    }
    let mut written: u64 = 0;
    proof {
        reveal_strlit("z");
        reveal_strlit("_");
    }
    while written < zoom
        invariant
            written <= zoom,
            prefix@ == Seq::new(written as nat, |i: int| 'z'),
            "z"@ == seq!['z'],
        decreases zoom - written,
    {
        prefix.append("z");
        written = written + 1;
        assert(prefix@ =~= Seq::new(written as nat, |i: int| 'z'));
    }
    prefix.append("_");
    assert(prefix@ =~= zoom_prefix_spec(zoom as nat));
    prefix
}

/// A request to send to the Dynmap server.
#[derive(Clone, Debug, PartialEq, Eq)]
pub struct UpstreamRequest {
    /// The address to fetch.
    pub url: String,
    /// The value of the `Accept` header, where the request has one.
    pub accept: Option<String>,
}

/// The mathematical value of an [`UpstreamRequest`].
pub struct UpstreamRequestView {
    pub url: Seq<char>,
    pub accept: Option<Seq<char>>,
}

impl View for UpstreamRequest {
    type V = UpstreamRequestView;

    open spec fn view(&self) -> UpstreamRequestView {
        UpstreamRequestView {
            url: self.url@,
            accept: match self.accept {
                Some(media) => Some(media@),
                None => None,
            },
        }
    }
}

/// A Dynmap server, known by its address.
#[derive(Clone, Debug, PartialEq, Eq)]
pub struct Dynmap {
    base_url: String,
}

impl View for Dynmap {
    type V = Seq<char>;

    /// The address of the server.
    closed spec fn view(&self) -> Seq<char> {
        self.base_url@
    }
}

impl Dynmap {
    /// A Dynmap server at the address `base_url`.
    pub fn new(base_url: String) -> (dynmap: Self)
        ensures
            dynmap@ == base_url@,
    {
        Dynmap { base_url: base_url }
    }

    /// The address of the server.
    pub fn base_url(&self) -> (base_url: &str)
        ensures
            base_url@ == self@,
    {
        self.base_url.as_str()
    }

    /// The request that fetches the server's configuration.
    pub fn get_config(&self) -> (request: UpstreamRequest)
        ensures
            request@ == (UpstreamRequestView {
                url: configuration_url_spec(self@),
                accept: None,
            }),
    {
        let mut url = self.base_url.clone();
        url.append("/up/configuration");
        UpstreamRequest { url: url, accept: None }
    }

    /// The address of a tile on the server.
    pub fn tile_url(&self, world: &str, map: &str, zoom: u64, x: i64, z: i64, image_format: &str) -> (url:
        String)
        ensures
            url@ == tile_url_spec(self@, world@, map@, zoom as nat, x as int, z as int, image_format@),
    {
        let mut url = self.base_url.clone();
        url.append("/tiles/");
        url.append(world);
        url.append("/");
        url.append(map);
        url.append("/0_0/");
        let prefix = zoom_prefix(zoom);
        url.append(prefix.as_str());
        let column = i64_to_string(x);
        url.append(column.as_str());
        url.append("_");
        let row = i64_to_string(z);
        url.append(row.as_str());
        url.append(".");
        url.append(image_format);
        url
    }

    /// The request that fetches a tile whose media type is `content_type`:
    /// the tile's address, and the media type as what the client accepts.
    pub fn tile_request(
        &self,
        world: &str,
        map: &str,
        zoom: u64,
        x: i64,
        z: i64,
        image_format: &str,
        content_type: String,
    ) -> (request: UpstreamRequest)
        ensures
            request@ == (UpstreamRequestView {
                url: tile_url_spec(self@, world@, map@, zoom as nat, x as int, z as int, image_format@),
                accept: Some(content_type@),
            }),
    {
        let url = self.tile_url(world, map, zoom, x, z, image_format);
        UpstreamRequest { url: url, accept: Some(content_type) }
    }

    /// The request that fetches a tile. It accepts the media type registered
    /// for `image_format`; there is no request where none is registered.
    pub fn get_tile(&self, world: &str, map: &str, zoom: u64, x: i64, z: i64, image_format: &str) -> (request:
        Option<UpstreamRequest>)
        ensures
            match request {
                Some(r) => media_type_of_extension(image_format@) is Some && r@ == (UpstreamRequestView {
                    url: tile_url_spec(
                        self@,
                        world@,
                        map@,
                        zoom as nat,
                        x as int,
                        z as int,
                        image_format@,
                    ),
                    accept: media_type_of_extension(image_format@),
                }),
                None => media_type_of_extension(image_format@) is None,
            },
    {
        match media_type(image_format) {
            None => None,
            Some(content_type) => Some(
                self.tile_request(world, map, zoom, x, z, image_format, content_type),
            ),
        }
    }
}

} // verus!
