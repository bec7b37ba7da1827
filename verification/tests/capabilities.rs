use dynmap_wmts::capabilities::{Capabilities, Layer, TileMatrixSet};
use dynmap_wmts::dynmap::{Configuration, World, WorldMap};
use dynmap_wmts::geometry::{tile_matrices, TileMatrix};

fn map(name: &str, title: &str, tilescale: u64, mapzoomout: u64, image_format: &str) -> WorldMap {
    WorldMap {
        name: String::from(name),
        title: String::from(title),
        prefix: String::from(name),
        perspective: String::from("iso_SE_30_hires"),
        scale: 4,
        tilescale,
        mapzoomout,
        image_format: String::from(image_format),
    }
}

fn world(name: &str, title: &str, maps: Vec<WorldMap>) -> World {
    World { name: String::from(name), title: String::from(title), maps }
}

#[test]
fn capabilities_of_one_world_with_one_map() {
    let config = Configuration {
        worlds: vec![world("earth", "Earth", vec![map("surface", "Surface", 0, 0, "png")])],
    };
    let capabilities = Capabilities::new("http://wmts", &config).unwrap();
    assert_eq!(capabilities.base_url, "http://wmts");
    assert_eq!(capabilities.layers.len(), 1);
    assert_eq!(
        capabilities.layers[0],
        Layer {
            identifier: String::from("earth_surface"),
            title: String::from("Earth Surface"),
            tile_content_type: String::from("image/png"),
            tile_url_template: String::from(
                "http://wmts/tiles/earth/surface/{TileMatrix}/{TileCol}/{TileRow}.png"
            ),
        }
    );
    assert_eq!(capabilities.tile_matrix_sets.len(), 1);
    let set = &capabilities.tile_matrix_sets[0];
    assert_eq!(set.identifier, "earth_surface");
    assert_eq!(set.title, "Earth Surface");
    assert_eq!(set.matrices.len(), 1);
    assert_eq!(set.matrices[0], TileMatrix::new(128, 0));
    assert_eq!(set.matrices[0].identifier, "0");
}

#[test]
fn tile_matrix_set_of_a_map() {
    let earth = world("earth", "Earth", vec![]);
    let set = TileMatrixSet::new(&earth, &map("flat", "Flat", 1, 4, "jpg"));
    assert_eq!(set.identifier, "earth_flat");
    assert_eq!(set.title, "Earth Flat");
    assert_eq!(set.matrices, tile_matrices(256, 4));
    let identifiers: Vec<&str> = set.matrices.iter().map(|m| m.identifier.as_str()).collect();
    assert_eq!(identifiers, vec!["0", "1", "2", "3", "4"]);
}

#[test]
fn maps_with_the_same_geometry_have_the_same_matrices() {
    let earth = world("earth", "Earth", vec![]);
    let moon = world("moon", "Moon", vec![]);
    let first = TileMatrixSet::new(&earth, &map("surface", "Surface", 1, 5, "png"));
    let second = TileMatrixSet::new(&moon, &map("cave", "Cave", 1, 5, "jpg"));
    assert_eq!(first.matrices, second.matrices);
    assert!(!first.same(&second));
    assert_ne!(first.identifier, second.identifier);
}

#[test]
fn equal_tile_matrix_sets_are_listed_once() {
    let config = Configuration {
        worlds: vec![
            world(
                "earth",
                "Earth",
                vec![map("surface", "Surface", 0, 3, "png"), map("surface", "Surface", 0, 3, "jpg")],
            ),
            world("earth", "Earth", vec![map("surface", "Surface", 0, 3, "png")]),
        ],
    };
    let sets = config.get_tile_matrix_sets();
    assert_eq!(sets.len(), 1);
    assert_eq!(sets[0].identifier, "earth_surface");
    let capabilities = Capabilities::new("http://wmts", &config).unwrap();
    assert_eq!(capabilities.tile_matrix_sets.len(), 1);
    assert_eq!(capabilities.layers.len(), 3);
    assert_eq!(capabilities.layers[1].tile_content_type, "image/jpeg");
}

#[test]
fn names_that_join_to_the_same_identifier() {
    let config = Configuration {
        worlds: vec![
            world("a_b", "T", vec![map("c", "U", 0, 1, "png")]),
            world("a", "T", vec![map("b_c", "U", 0, 1, "png")]),
        ],
    };
    let sets = config.get_tile_matrix_sets();
    assert_eq!(sets.len(), 1);
    assert_eq!(sets[0].identifier, "a_b_c");
    assert_eq!(config.get_layers("x").unwrap().len(), 2);
}

#[test]
fn different_tile_matrix_sets_are_all_listed_in_order() {
    let config = Configuration {
        worlds: vec![
            world(
                "earth",
                "Earth",
                vec![map("surface", "Surface", 0, 3, "png"), map("flat", "Flat", 0, 3, "png")],
            ),
            world("moon", "Moon", vec![]),
            world(
                "mars",
                "Mars",
                vec![
                    map("surface", "Surface", 1, 2, "jpg"),
                    map("surface", "Surface", 1, 2, "jpg"),
                    map("surface", "Surface", 1, 3, "jpg"),
                ],
            ),
        ],
    };
    let sets = config.get_tile_matrix_sets();
    let names: Vec<(&str, usize)> =
        sets.iter().map(|s| (s.identifier.as_str(), s.matrices.len())).collect();
    assert_eq!(
        names,
        vec![("earth_surface", 4), ("earth_flat", 4), ("mars_surface", 3), ("mars_surface", 4)]
    );
    assert_eq!(sets[0].matrices, sets[1].matrices);
    for (i, first) in sets.iter().enumerate() {
        for (j, second) in sets.iter().enumerate() {
            assert_eq!(first.same(second), i == j);
        }
    }
    let layers = config.get_layers("http://wmts").unwrap();
    let identifiers: Vec<&str> = layers.iter().map(|l| l.identifier.as_str()).collect();
    assert_eq!(
        identifiers,
        vec!["earth_surface", "earth_flat", "mars_surface", "mars_surface", "mars_surface"]
    );
}

#[test]
fn layer_of_a_map() {
    let earth = world("earth", "Earth", vec![]);
    let layer =
        Layer::new("https://h/base", &earth, &map("flat", "Flat Map", 0, 0, "webp"), String::from("image/webp"));
    assert_eq!(layer.identifier, "earth_flat");
    assert_eq!(layer.title, "Earth Flat Map");
    assert_eq!(layer.tile_content_type, "image/webp");
    assert_eq!(
        layer.tile_url_template,
        "https://h/base/tiles/earth/flat/{TileMatrix}/{TileCol}/{TileRow}.webp"
    );
}

#[test]
fn no_layers_where_an_image_format_is_unknown() {
    let config = Configuration {
        worlds: vec![
            world("earth", "Earth", vec![map("surface", "Surface", 0, 0, "png")]),
            world("moon", "Moon", vec![map("surface", "Surface", 0, 0, "foo")]),
        ],
    };
    assert_eq!(config.get_layers("http://wmts"), None);
    assert_eq!(Capabilities::new("http://wmts", &config), None);
    assert_eq!(config.get_tile_matrix_sets().len(), 2);
}

#[test]
fn capabilities_of_an_empty_configuration() {
    let config = Configuration { worlds: vec![] };
    let capabilities = Capabilities::new("http://wmts", &config).unwrap();
    assert!(capabilities.layers.is_empty());
    assert!(capabilities.tile_matrix_sets.is_empty());
    let config = Configuration { worlds: vec![world("earth", "Earth", vec![])] };
    let capabilities = Capabilities::new("http://wmts", &config).unwrap();
    assert!(capabilities.layers.is_empty());
    assert!(capabilities.tile_matrix_sets.is_empty());
}

#[test]
fn tile_scales_are_checked_against_the_largest() {
    let config = Configuration {
        worlds: vec![
            world("earth", "Earth", vec![map("surface", "Surface", 56, 0, "png")]),
            world("moon", "Moon", vec![]),
        ],
    };
    assert!(config.tile_scales_in_range());
    assert_eq!(config.get_tile_matrix_sets()[0].matrices[0].tile_size, 1u64 << 63);
    let config = Configuration {
        worlds: vec![
            world("earth", "Earth", vec![map("surface", "Surface", 0, 0, "png")]),
            world("moon", "Moon", vec![map("a", "A", 1, 0, "png"), map("b", "B", 57, 0, "png")]),
        ],
    };
    assert!(!config.tile_scales_in_range());
    assert!(Configuration { worlds: vec![] }.tile_scales_in_range());
}

#[test]
fn tile_matrix_set_same_compares_every_part() {
    let earth = world("earth", "Earth", vec![]);
    let set = TileMatrixSet::new(&earth, &map("flat", "Flat", 0, 2, "png"));
    assert!(set.same(&set.clone()));
    assert!(!set.same(&TileMatrixSet::new(&earth, &map("flat", "Flat", 0, 3, "png"))));
    assert!(!set.same(&TileMatrixSet::new(&earth, &map("flat", "Flat", 1, 2, "png"))));
    assert!(!set.same(&TileMatrixSet::new(&earth, &map("flat", "Flats", 0, 2, "png"))));
    assert!(!set.same(&TileMatrixSet::new(&earth, &map("flap", "Flat", 0, 2, "png"))));
    assert!(set.same(&TileMatrixSet::new(&earth, &map("flat", "Flat", 0, 2, "jpg"))));
}
