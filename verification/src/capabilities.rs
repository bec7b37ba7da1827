//! The model of a WMTS capabilities document: the layers and the tile matrix
//! sets that a Dynmap configuration gives rise to.

use crate::dynmap::{Configuration, ConfigurationView, World, WorldMap, WorldMapView, WorldView};
use crate::media::{media_type, media_type_of_extension};
use crate::geometry::{
    matrix_views, tile_matrices, tile_matrices_spec, tile_size, tile_size_spec, TileMatrix,
    TileMatrixView, MAX_TILE_SCALE,
};
use vstd::prelude::*;
use vstd::string::*;

verus! {

/// The tile matrices of one map, under the map's name.
#[derive(Clone, Debug, PartialEq, Eq)]
pub struct TileMatrixSet {
    pub identifier: String,
    pub title: String,
    /// One matrix for each zoom-out level, in ascending order.
    pub matrices: Vec<TileMatrix>,
}

/// The mathematical value of a [`TileMatrixSet`].
pub struct TileMatrixSetView {
    pub identifier: Seq<char>,
    pub title: Seq<char>,
    pub matrices: Seq<TileMatrixView>,
}

impl View for TileMatrixSet {
    type V = TileMatrixSetView;

    open spec fn view(&self) -> TileMatrixSetView {
        TileMatrixSetView {
            identifier: self.identifier@,
            title: self.title@,
            matrices: matrix_views(self.matrices@),
        }
    }
}

/// The name under which a map of a world is offered: the two names joined by `_`.
pub open spec fn layer_identifier(world: WorldView, map: WorldMapView) -> Seq<char> {
    world.name + "_"@ + map.name
}

/// The title under which a map of a world is offered: the two titles joined
/// by a space.
pub open spec fn layer_title(world: WorldView, map: WorldMapView) -> Seq<char> {
    world.title + " "@ + map.title
}

/// Whether the tile size of a map fits in 64 bits.
pub open spec fn tile_scale_in_range(map: WorldMapView) -> bool {
    map.tilescale <= MAX_TILE_SCALE
}

/// The tile matrix set of a map of a world.
pub open spec fn tile_matrix_set_spec(world: WorldView, map: WorldMapView) -> TileMatrixSetView {
    TileMatrixSetView {
        identifier: layer_identifier(world, map),
        title: layer_title(world, map),
        matrices: tile_matrices_spec(tile_size_spec(map.tilescale as nat) as u64, map.mapzoomout),
    }
}

/// The sequence `s` without repetitions: of equal elements only the first
/// stays, and the elements that stay keep their order.
pub open spec fn distinct<A>(s: Seq<A>) -> Seq<A>
    decreases s.len(),
{
    if s.len() == 0 {
        Seq::<A>::empty()
    } else {
        let rest = distinct(s.drop_last());
        if rest.contains(s.last()) {
            rest
        } else {
            rest.push(s.last())
        }
    }
}

/// Nothing occurs twice in a sequence without repetitions.
pub proof fn lemma_distinct_no_duplicates<A>(s: Seq<A>)
    ensures
        distinct(s).no_duplicates(),
    decreases s.len(),
{
    if s.len() > 0 {
        lemma_distinct_no_duplicates(s.drop_last());
    }
}

/// Dropping repetitions loses no element and adds none.
pub proof fn lemma_distinct_same_elements<A>(s: Seq<A>)
    ensures
        forall|x: A| distinct(s).contains(x) <==> s.contains(x),
    decreases s.len(),
{
    if s.len() > 0 {
        lemma_distinct_same_elements(s.drop_last());
        let rest = distinct(s.drop_last());
        assert forall|x: A| distinct(s).contains(x) <==> s.contains(x) by {
            if s.contains(x) {
                let i = choose|i: int| 0 <= i < s.len() && s[i] == x;
                if i < s.len() - 1 {
                    assert(s.drop_last()[i] == x);
                    assert(s.drop_last().contains(x));
                    assert(rest.contains(x));
                    let j = choose|j: int| 0 <= j < rest.len() && rest[j] == x;
                    assert(distinct(s)[j] == x);
                } else {
                    if !rest.contains(x) {
                        assert(distinct(s)[rest.len() as int] == x);
                    }
                }
            }
            if distinct(s).contains(x) {
                let j = choose|j: int| 0 <= j < distinct(s).len() && distinct(s)[j] == x;
                if j < rest.len() {
                    assert(rest[j] == x);
                    assert(s.drop_last().contains(x));
                    let i = choose|i: int| 0 <= i < s.drop_last().len() && s.drop_last()[i] == x;
                    assert(s[i] == x);
                } else {
                    assert(s[s.len() - 1] == x);
                }
            }
        }
    }
}

/// The mathematical values of a list of tile matrix sets.
pub open spec fn set_views(sets: Seq<TileMatrixSet>) -> Seq<TileMatrixSetView> {
    sets.map_values(|set: TileMatrixSet| set@)
}

/// The tile matrix sets of the maps of one world, in the order of the maps.
pub open spec fn world_sets(world: WorldView) -> Seq<TileMatrixSetView> {
    Seq::new(world.maps.len(), |i: int| tile_matrix_set_spec(world, world.maps[i]))
}

/// The tile matrix sets of all maps of all worlds, world by world, with
/// repetitions.
pub open spec fn all_sets(worlds: Seq<WorldView>) -> Seq<TileMatrixSetView>
    decreases worlds.len(),
{
    if worlds.len() == 0 {
        Seq::<TileMatrixSetView>::empty()
    } else {
        all_sets(worlds.drop_last()) + world_sets(worlds.last())
    }
}

/// Whether the tile size of every map of a configuration fits in 64 bits.
pub open spec fn tile_scales_in_range(config: ConfigurationView) -> bool {
    forall|w: int, m: int|
        0 <= w < config.worlds.len() && 0 <= m < config.worlds[w].maps.len()
            ==> tile_scale_in_range(#[trigger] config.worlds[w].maps[m])
}

/// Joins two texts with a separator between them.
fn join(first: &str, separator: &str, second: &str) -> (joined: String)
    ensures
        joined@ == first@ + separator@ + second@,
{
    let mut joined = String::from_str(first);
    joined.append(separator);
    joined.append(second);
    joined
}

impl TileMatrixSet {
    /// The tile matrix set of a map of a world.
    pub fn new(world: &World, map: &WorldMap) -> (set: TileMatrixSet)
        requires
            tile_scale_in_range(map@),
        ensures
            set@ == tile_matrix_set_spec(world@, map@),
    {
        TileMatrixSet {
            identifier: join(world.name.as_str(), "_", map.name.as_str()),
            title: join(world.title.as_str(), " ", map.title.as_str()),
            matrices: tile_matrices(tile_size(map.tilescale), map.mapzoomout),
        }
    }

    /// Whether two tile matrix sets have the same value: the same identifier,
    /// the same title and the same matrices in the same order.
    pub fn same(&self, other: &TileMatrixSet) -> (same: bool)
        ensures
            same == (self@ == other@),
    {
        if !(self.identifier == other.identifier && self.title == other.title) {
            return false;
        }
        if self.matrices.len() != other.matrices.len() {
            assert(self@.matrices.len() != other@.matrices.len());
            return false;
        }
        let mut i: usize = 0;
        while i < self.matrices.len()
            invariant
                i <= self.matrices@.len(),
                self.matrices@.len() == other.matrices@.len(),
                forall|k: int| 0 <= k < i ==> self@.matrices[k] == other@.matrices[k],
            decreases self.matrices@.len() - i,
        {
            if !self.matrices[i].same(&other.matrices[i]) {
                assert(self@.matrices[i as int] != other@.matrices[i as int]);
                return false;
            }
            i = i + 1;
        }
        assert(self@.matrices =~= other@.matrices);
        true
    }
}

/// Whether a list of tile matrix sets holds one with the value of `set`.
fn holds(sets: &Vec<TileMatrixSet>, set: &TileMatrixSet) -> (found: bool)
    ensures
        found == set_views(sets@).contains(set@),
{
    let mut i: usize = 0;
    while i < sets.len()
        invariant
            i <= sets@.len(),
            forall|k: int| 0 <= k < i ==> set_views(sets@)[k] != set@,
        decreases sets@.len() - i,
    {
        if sets[i].same(set) {
            assert(set_views(sets@)[i as int] == set@);
            return true;
        }
        i = i + 1;
    }
    false
}

/// Adds a tile matrix set to a list unless the list already holds one with
/// the same value.
fn insert_distinct(sets: &mut Vec<TileMatrixSet>, set: TileMatrixSet)
    ensures
        set_views(final(sets)@) == if set_views(old(sets)@).contains(set@) {
            set_views(old(sets)@)
        } else {
            set_views(old(sets)@).push(set@)
        },
{
    if !holds(sets, &set) {
        let ghost before = sets@;
        sets.push(set);
        assert(set_views(sets@) =~= set_views(before).push(set@));
    }
}

impl Configuration {
    /// Whether the tile size of every map fits in 64 bits.
    pub fn tile_scales_in_range(&self) -> (in_range: bool)
        ensures
            in_range == tile_scales_in_range(self@),
    {
        let mut w: usize = 0;
        while w < self.worlds.len()
            invariant
                w <= self.worlds@.len(),
                forall|i: int, m: int|
                    0 <= i < w && 0 <= m < self@.worlds[i].maps.len() ==> tile_scale_in_range(
                        #[trigger] self@.worlds[i].maps[m],
                    ),
            decreases self.worlds@.len() - w,
        {
            let world = &self.worlds[w];
            assert(self@.worlds[w as int] == world@);
            let mut m: usize = 0;
            while m < world.maps.len()
                invariant
                    m <= world.maps@.len(),
                    w < self.worlds@.len(),
                    self@.worlds[w as int] == world@,
                    forall|k: int| 0 <= k < m ==> tile_scale_in_range(#[trigger] world@.maps[k]),
                decreases world.maps@.len() - m,
            {
                if world.maps[m].tilescale > MAX_TILE_SCALE {
                    assert(!tile_scale_in_range(self@.worlds[w as int].maps[m as int]));
                    return false;
                }
                m = m + 1;
            }
            w = w + 1;
        }
        true
    }

    /// The tile matrix sets of all maps of all worlds. Sets with the same
    /// value are kept once, at the place of the first.
    pub fn get_tile_matrix_sets(&self) -> (sets: Vec<TileMatrixSet>)
        requires
            tile_scales_in_range(self@),
        ensures
            set_views(sets@) == distinct(all_sets(self@.worlds)),
            set_views(sets@).no_duplicates(),
            forall|set: TileMatrixSetView|
                set_views(sets@).contains(set) <==> all_sets(self@.worlds).contains(set),
    {
        let mut sets: Vec<TileMatrixSet> = Vec::new();
        let mut w: usize = 0;
        assert(self@.worlds.take(0) =~= Seq::<WorldView>::empty());
        assert(set_views(sets@) =~= Seq::<TileMatrixSetView>::empty());
        while w < self.worlds.len()
            invariant
                w <= self.worlds@.len(),
                tile_scales_in_range(self@),
                set_views(sets@) == distinct(all_sets(self@.worlds.take(w as int))),
            decreases self.worlds@.len() - w,
        {
            let world = &self.worlds[w];
            let ghost done = all_sets(self@.worlds.take(w as int));
            assert(self@.worlds[w as int] == world@);
            let mut m: usize = 0;
            assert(done + world_sets(world@).take(0) =~= done);
            while m < world.maps.len()
                invariant
                    m <= world.maps@.len(),
                    w < self.worlds@.len(),
                    self@.worlds[w as int] == world@,
                    tile_scales_in_range(self@),
                    set_views(sets@) == distinct(done + world_sets(world@).take(m as int)),
                decreases world.maps@.len() - m,
            {
                let map = &world.maps[m];
                assert(world@.maps[m as int] == map@);
                assert(tile_scale_in_range(self@.worlds[w as int].maps[m as int]));
                let set = TileMatrixSet::new(world, map);
                insert_distinct(&mut sets, set);
                proof {
                    let before = done + world_sets(world@).take(m as int);
                    let after = done + world_sets(world@).take(m + 1);
                    assert(after.drop_last() =~= before);
                    assert(after.last() == tile_matrix_set_spec(world@, map@));
                }
                m = m + 1;
            }
            proof {
                assert(world_sets(world@).take(m as int) =~= world_sets(world@));
                let next = self@.worlds.take(w + 1);
                assert(next.drop_last() =~= self@.worlds.take(w as int));
                assert(next.last() == world@);
            }
            w = w + 1;
        }
        proof {
            assert(self@.worlds.take(w as int) =~= self@.worlds);
            lemma_distinct_no_duplicates(all_sets(self@.worlds));
            lemma_distinct_same_elements(all_sets(self@.worlds));
        }
        sets
    }
}

/// One map of one world, as a layer that clients can ask tiles of.
#[derive(Clone, Debug, PartialEq, Eq)]
pub struct Layer {
    pub identifier: String,
    pub title: String,
    /// Media type of the layer's tiles.
    pub tile_content_type: String,
    /// Address of a tile of the layer, with placeholders for the tile
    /// matrix, the tile column and the tile row.
    pub tile_url_template: String,
}

/// The mathematical value of a [`Layer`].
pub struct LayerView {
    pub identifier: Seq<char>,
    pub title: Seq<char>,
    pub tile_content_type: Seq<char>,
    pub tile_url_template: Seq<char>,
}

impl View for Layer {
    type V = LayerView;

    open spec fn view(&self) -> LayerView {
        LayerView {
            identifier: self.identifier@,
            title: self.title@,
            tile_content_type: self.tile_content_type@,
            tile_url_template: self.tile_url_template@,
        }
    }
}

/// The address of a tile of a map as this service offers it under
/// `base_url`, with placeholders where the tile's matrix, column and row go.
pub open spec fn tile_url_template_spec(
    base_url: Seq<char>,
    world: WorldView,
    map: WorldMapView,
) -> Seq<char> {
    base_url + "/tiles/"@ + world.name + "/"@ + map.name
        + "/{TileMatrix}/{TileCol}/{TileRow}."@ + map.image_format
}

/// The layer of a map of a world whose tiles have the media type
/// `content_type`.
pub open spec fn layer_spec(
    base_url: Seq<char>,
    world: WorldView,
    map: WorldMapView,
    content_type: Seq<char>,
) -> LayerView {
    LayerView {
        identifier: layer_identifier(world, map),
        title: layer_title(world, map),
        tile_content_type: content_type,
        tile_url_template: tile_url_template_spec(base_url, world, map),
    }
}

/// The layer of a map of a world, with the media type that is registered for
/// the map's image format.
pub open spec fn map_layer(base_url: Seq<char>, world: WorldView, map: WorldMapView) -> LayerView
    recommends
        media_type_of_extension(map.image_format) is Some,
{
    layer_spec(base_url, world, map, media_type_of_extension(map.image_format).unwrap())
}

/// The layers of the maps of one world, in the order of the maps.
pub open spec fn world_layers(base_url: Seq<char>, world: WorldView) -> Seq<LayerView> {
    Seq::new(world.maps.len(), |i: int| map_layer(base_url, world, world.maps[i]))
}

/// The layers of all maps of all worlds, world by world: one for each map.
pub open spec fn all_layers(base_url: Seq<char>, worlds: Seq<WorldView>) -> Seq<LayerView>
    decreases worlds.len(),
{
    if worlds.len() == 0 {
        Seq::<LayerView>::empty()
    } else {
        all_layers(base_url, worlds.drop_last()) + world_layers(base_url, worlds.last())
    }
}

/// The number of maps of all worlds together.
pub open spec fn map_count(worlds: Seq<WorldView>) -> nat
    decreases worlds.len(),
{
    if worlds.len() == 0 {
        0
    } else {
        map_count(worlds.drop_last()) + worlds.last().maps.len()
    }
}

/// Whether a media type is registered for the image format of every map of
/// every world.
pub open spec fn formats_known(worlds: Seq<WorldView>) -> bool {
    forall|w: int, m: int|
        0 <= w < worlds.len() && 0 <= m < worlds[w].maps.len() ==> media_type_of_extension(
            (#[trigger] worlds[w].maps[m]).image_format,
        ) is Some
}

/// The mathematical values of a list of layers.
pub open spec fn layer_views(layers: Seq<Layer>) -> Seq<LayerView> {
    layers.map_values(|layer: Layer| layer@)
}

impl Layer {
    /// The layer of a map of a world whose tiles have the media type
    /// `content_type`.
    pub fn new(base_url: &str, world: &World, map: &WorldMap, content_type: String) -> (layer: Layer)
        ensures
            layer@ == layer_spec(base_url@, world@, map@, content_type@),
    {
        let mut template = String::from_str(base_url);
        template.append("/tiles/");
        template.append(world.name.as_str());
        template.append("/");
        template.append(map.name.as_str());
        template.append("/{TileMatrix}/{TileCol}/{TileRow}.");
        template.append(map.image_format.as_str());
        Layer {
            identifier: join(world.name.as_str(), "_", map.name.as_str()),
            title: join(world.title.as_str(), " ", map.title.as_str()),
            tile_content_type: content_type,
            tile_url_template: template,
        }
    }
}

impl Configuration {
    /// The layers of all maps of all worlds, one for each map, in the order
    /// of the configuration. There are layers only where a media type is
    /// registered for the image format of every map.
    pub fn get_layers(&self, base_url: &str) -> (layers: Option<Vec<Layer>>)
        ensures
            layers is Some <==> formats_known(self@.worlds),
            layers matches Some(list) ==> layer_views(list@) == all_layers(base_url@, self@.worlds)
                && list@.len() == map_count(self@.worlds),
    {
        let mut layers: Vec<Layer> = Vec::new();
        let mut w: usize = 0;
        assert(self@.worlds.take(0) =~= Seq::<WorldView>::empty());
        assert(layer_views(layers@) =~= Seq::<LayerView>::empty());
        while w < self.worlds.len()
            invariant
                w <= self.worlds@.len(),
                formats_known(self@.worlds.take(w as int)),
                layer_views(layers@) == all_layers(base_url@, self@.worlds.take(w as int)),
                layers@.len() == map_count(self@.worlds.take(w as int)),
            decreases self.worlds@.len() - w,
        {
            let world = &self.worlds[w];
            let ghost done = all_layers(base_url@, self@.worlds.take(w as int));
            let ghost counted = map_count(self@.worlds.take(w as int));
            assert(self@.worlds[w as int] == world@);
            let mut m: usize = 0;
            assert(done + world_layers(base_url@, world@).take(0) =~= done);
            while m < world.maps.len()
                invariant
                    m <= world.maps@.len(),
                    w < self.worlds@.len(),
                    self@.worlds[w as int] == world@,
                    forall|k: int|
                        0 <= k < m ==> media_type_of_extension(
                            (#[trigger] world@.maps[k]).image_format,
                        ) is Some,
                    layer_views(layers@) == done + world_layers(base_url@, world@).take(m as int),
                    layers@.len() == counted + m,
                decreases world.maps@.len() - m,
            {
                let map = &world.maps[m];
                assert(world@.maps[m as int] == map@);
                match media_type(map.image_format.as_str()) {
                    None => {
                        assert(media_type_of_extension(
                            self@.worlds[w as int].maps[m as int].image_format,
                        ) is None);
                        return None;
                    },
                    Some(content_type) => {
                        let ghost before = layers@;
                        let layer = Layer::new(base_url, world, map, content_type);
                        layers.push(layer);
                        assert(layer_views(layers@) =~= layer_views(before).push(layer@));
                        assert(layer_views(layers@) =~= done + world_layers(
                            base_url@,
                            world@,
                        ).take(m + 1));
                    },
                }
                m = m + 1;
            }
            proof {
                assert(world_layers(base_url@, world@).take(m as int) =~= world_layers(
                    base_url@,
                    world@,
                ));
                let next = self@.worlds.take(w + 1);
                assert(next.drop_last() =~= self@.worlds.take(w as int));
                assert(next.last() == world@);
                assert forall|i: int, k: int|
                    0 <= i < next.len() && 0 <= k < next[i].maps.len()
                        implies media_type_of_extension(
                        (#[trigger] next[i].maps[k]).image_format,
                    ) is Some by {
                    if i < w {
                        assert(next[i] == self@.worlds.take(w as int)[i]);
                    }
                }
            }
            w = w + 1;
        }
        assert(self@.worlds.take(w as int) =~= self@.worlds);
        Some(layers)
    }
}

/// What this service tells its clients about itself: where it is, which
/// layers it offers and which tile matrix sets they use.
#[derive(Clone, Debug, PartialEq, Eq)]
pub struct Capabilities {
    pub base_url: String,
    /// One layer for each map, in the order of the configuration.
    pub layers: Vec<Layer>,
    /// The tile matrix sets of the maps, each value once.
    pub tile_matrix_sets: Vec<TileMatrixSet>,
}

/// The mathematical value of a [`Capabilities`].
pub struct CapabilitiesView {
    pub base_url: Seq<char>,
    pub layers: Seq<LayerView>,
    pub tile_matrix_sets: Seq<TileMatrixSetView>,
}

impl View for Capabilities {
    type V = CapabilitiesView;

    open spec fn view(&self) -> CapabilitiesView {
        CapabilitiesView {
            base_url: self.base_url@,
            layers: layer_views(self.layers@),
            tile_matrix_sets: set_views(self.tile_matrix_sets@),
        }
    }
}

/// The capabilities of a service at `base_url` in front of a Dynmap server
/// with the given configuration.
pub open spec fn capabilities_spec(base_url: Seq<char>, config: ConfigurationView) -> CapabilitiesView
    recommends
        formats_known(config.worlds),
{
    CapabilitiesView {
        base_url: base_url,
        layers: all_layers(base_url, config.worlds),
        tile_matrix_sets: distinct(all_sets(config.worlds)),
    }
}

impl Capabilities {
    /// Whether no tile matrix set is listed twice.
    pub open spec fn well_formed(&self) -> bool {
        self@.tile_matrix_sets.no_duplicates()
    }

    /// The capabilities of a service at `base_url` in front of a Dynmap
    /// server with the given configuration. There are capabilities only
    /// where a media type is registered for the image format of every map.
    pub fn new(base_url: &str, config: &Configuration) -> (capabilities: Option<Capabilities>)
        requires
            tile_scales_in_range(config@),
        ensures
            capabilities is Some <==> formats_known(config@.worlds),
            capabilities matches Some(c) ==> c@ == capabilities_spec(base_url@, config@)
                && c.well_formed() && c.layers@.len() == map_count(config@.worlds),
    {
        match config.get_layers(base_url) {
            None => None,
            Some(layers) => Some(
                Capabilities {
                    base_url: String::from_str(base_url),
                    layers: layers,
                    tile_matrix_sets: config.get_tile_matrix_sets(),
                },
            ),
        }
    }
}

/// Two maps with the same tile scale and the same largest zoom-out level
/// have the same tile matrices, whatever their names and their worlds.
pub proof fn lemma_shared_geometry(
    world1: WorldView,
    map1: WorldMapView,
    world2: WorldView,
    map2: WorldMapView,
)
    requires
        map1.tilescale == map2.tilescale,
        map1.mapzoomout == map2.mapzoomout,
    ensures
        tile_matrix_set_spec(world1, map1).matrices == tile_matrix_set_spec(world2, map2).matrices,
{
}

/// The capabilities list every tile matrix set of the configuration, hold
/// none twice, and have exactly one layer for each map.
pub proof fn lemma_capabilities_sets_and_layers(base_url: Seq<char>, config: ConfigurationView)
    ensures
        capabilities_spec(base_url, config).tile_matrix_sets.no_duplicates(),
        forall|set: TileMatrixSetView|
            capabilities_spec(base_url, config).tile_matrix_sets.contains(set) <==> all_sets(
                config.worlds,
            ).contains(set),
        capabilities_spec(base_url, config).layers.len() == map_count(config.worlds),
        all_sets(config.worlds).len() == map_count(config.worlds),
{
    lemma_distinct_no_duplicates(all_sets(config.worlds));
    lemma_distinct_same_elements(all_sets(config.worlds));
    lemma_one_entry_per_map(base_url, config.worlds);
}

/// Before repetitions are dropped there is one tile matrix set for each map,
/// and there is one layer for each map.
pub proof fn lemma_one_entry_per_map(base_url: Seq<char>, worlds: Seq<WorldView>)
    ensures
        all_layers(base_url, worlds).len() == map_count(worlds),
        all_sets(worlds).len() == map_count(worlds),
    decreases worlds.len(),
{
    if worlds.len() > 0 {
        lemma_one_entry_per_map(base_url, worlds.drop_last());
    }
}

/// Two maps whose tile matrix sets have the same value share one entry of
/// the capabilities: the entry is there, and it is there once.
pub proof fn lemma_equal_sets_share_one_entry(
    base_url: Seq<char>,
    config: ConfigurationView,
    w1: int,
    m1: int,
    w2: int,
    m2: int,
)
    requires
        0 <= w1 < config.worlds.len(),
        0 <= m1 < config.worlds[w1].maps.len(),
        0 <= w2 < config.worlds.len(),
        0 <= m2 < config.worlds[w2].maps.len(),
        tile_matrix_set_spec(config.worlds[w1], config.worlds[w1].maps[m1]) == tile_matrix_set_spec(
            config.worlds[w2],
            config.worlds[w2].maps[m2],
        ),
    ensures
        ({
            let sets = capabilities_spec(base_url, config).tile_matrix_sets;
            let shared = tile_matrix_set_spec(config.worlds[w1], config.worlds[w1].maps[m1]);
            &&& sets.contains(shared)
            &&& forall|i: int, j: int|
                0 <= i < sets.len() && 0 <= j < sets.len() && sets[i] == shared && sets[j]
                    == shared ==> i == j
        }),
{
    lemma_distinct_no_duplicates(all_sets(config.worlds));
    lemma_distinct_same_elements(all_sets(config.worlds));
    lemma_all_sets_contains(config.worlds, w1, m1);
}

/// The tile matrix set of every map of every world is among the sets of the
/// configuration.
pub proof fn lemma_all_sets_contains(worlds: Seq<WorldView>, w: int, m: int)
    requires
        0 <= w < worlds.len(),
        0 <= m < worlds[w].maps.len(),
    ensures
        all_sets(worlds).contains(tile_matrix_set_spec(worlds[w], worlds[w].maps[m])),
    decreases worlds.len(),
{
    let set = tile_matrix_set_spec(worlds[w], worlds[w].maps[m]);
    let earlier = all_sets(worlds.drop_last());
    if w == worlds.len() - 1 {
        assert(world_sets(worlds.last())[m] == set);
        assert(all_sets(worlds)[earlier.len() + m] == set);
    } else {
        lemma_all_sets_contains(worlds.drop_last(), w, m);
        let i = choose|i: int| 0 <= i < earlier.len() && earlier[i] == set;
        assert(all_sets(worlds)[i] == set);
    }
}

} // verus!
