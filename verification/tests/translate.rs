use dynmap_wmts::geometry::matrix_size;
use dynmap_wmts::translate::{
    parse_file_name, resolve_tile, tile_address, translate, ClientRequestMalformed, TileAddress,
};

#[test]
fn file_name_with_row_and_extension() {
    assert_eq!(parse_file_name("5.png"), Ok((5, String::from("png"))));
    assert_eq!(parse_file_name("-12.jpg"), Ok((-12, String::from("jpg"))));
    assert_eq!(parse_file_name("+3.webp"), Ok((3, String::from("webp"))));
    assert_eq!(parse_file_name("7.x"), Ok((7, String::from("x"))));
}

#[test]
fn file_name_whose_stem_is_no_integer() {
    assert_eq!(parse_file_name("abc.png"), Err(ClientRequestMalformed::InvalidRow));
    assert_eq!(parse_file_name("5.tar.gz"), Err(ClientRequestMalformed::InvalidRow));
    assert_eq!(parse_file_name("5 .png"), Err(ClientRequestMalformed::InvalidRow));
    assert_eq!(
        parse_file_name("9223372036854775808.png"),
        Err(ClientRequestMalformed::InvalidRow)
    );
}

#[test]
fn file_name_without_extension() {
    assert_eq!(parse_file_name("5"), Err(ClientRequestMalformed::MissingExtension));
    assert_eq!(parse_file_name("5."), Err(ClientRequestMalformed::MissingExtension));
    assert_eq!(parse_file_name(""), Err(ClientRequestMalformed::MissingExtension));
    assert_eq!(parse_file_name("."), Err(ClientRequestMalformed::MissingExtension));
    assert_eq!(parse_file_name("png"), Err(ClientRequestMalformed::MissingExtension));
}

#[test]
fn file_name_without_stem() {
    assert_eq!(parse_file_name(".png"), Err(ClientRequestMalformed::MissingStem));
}

#[test]
fn file_name_with_characters_of_several_bytes() {
    assert_eq!(parse_file_name("5.pñg"), Ok((5, String::from("pñg"))));
    assert_eq!(parse_file_name("ñ.png"), Err(ClientRequestMalformed::InvalidRow));
}

#[test]
fn centre_tile_is_the_origin() {
    let size = matrix_size(2) as i64;
    assert_eq!(size, 512);
    assert_eq!(translate(2, size / 2, size / 2), Some((0, 0)));
    for tile_matrix in [0u64, 1, 5, 10, 11, 12, 40, 63, 64, 1000] {
        let centre = (matrix_size(tile_matrix) / 2) as i64;
        assert_eq!(translate(tile_matrix, centre, centre), Some((0, 0)));
    }
}

#[test]
fn translation_scales_the_distance_from_the_centre() {
    assert_eq!(translate(0, 1024, 1024), Some((0, 0)));
    assert_eq!(translate(0, 1030, 1000), Some((6, 24)));
    assert_eq!(translate(0, 0, 0), Some((-1024, 1024)));
    assert_eq!(translate(1, 513, 510), Some((2, 4)));
    assert_eq!(translate(2, 0, 511), Some((-1024, -1020)));
    assert_eq!(translate(3, 130, 120), Some((16, 64)));
    assert_eq!(translate(10, 2, -1), Some((1024, 2048)));
    assert_eq!(translate(11, 3, 2), Some((6144, -4096)));
    assert_eq!(translate(12, -1, 1), Some((-4096, -4096)));
}

#[test]
fn translation_at_the_ends_of_the_range() {
    assert_eq!(translate(63, 1, 0), None);
    assert_eq!(translate(63, -1, 0), Some((i64::MIN, 0)));
    assert_eq!(translate(63, 0, 1), Some((0, i64::MIN)));
    assert_eq!(translate(63, 0, -1), None);
    assert_eq!(translate(62, 1, -1), Some((1 << 62, 1 << 62)));
    assert_eq!(translate(62, 2, 0), None);
    assert_eq!(translate(64, 0, 0), Some((0, 0)));
    assert_eq!(translate(64, 1, 0), None);
    assert_eq!(translate(64, 0, -1), None);
    assert_eq!(translate(u64::MAX, 0, 0), Some((0, 0)));
    assert_eq!(translate(u64::MAX, 0, 1), None);
    assert_eq!(translate(0, i64::MAX, 0), Some((i64::MAX - 1024, 1024)));
    assert_eq!(translate(0, i64::MIN, 0), None);
    assert_eq!(translate(0, 0, i64::MIN), None);
    assert_eq!(translate(0, 0, i64::MAX), Some((-1024, 1024 - i64::MAX)));
    assert_eq!(translate(1, i64::MAX, 512), None);
    assert_eq!(translate(11, i64::MIN, 0), None);
}

#[test]
fn tile_address_with_a_known_media_type() {
    let address =
        tile_address(1, 513, 510, String::from("png"), Some(String::from("image/png")));
    assert_eq!(
        address,
        Ok(TileAddress {
            zoom: 1,
            x: 2,
            z: 4,
            extension: String::from("png"),
            content_type: String::from("image/png"),
        })
    );
}

#[test]
fn tile_address_without_media_type() {
    assert_eq!(
        tile_address(1, 513, 510, String::from("foo"), None),
        Err(ClientRequestMalformed::UnknownExtension)
    );
    assert_eq!(
        tile_address(64, 1, 0, String::from("foo"), None),
        Err(ClientRequestMalformed::UnknownExtension)
    );
}

#[test]
fn tile_address_out_of_range() {
    assert_eq!(
        tile_address(64, 1, 0, String::from("png"), Some(String::from("image/png"))),
        Err(ClientRequestMalformed::OutOfRange)
    );
}

#[test]
fn tile_request_for_a_png() {
    let address = resolve_tile(0, 1024, "5.png").unwrap();
    assert_eq!(address.zoom, 0);
    assert_eq!(address.x, 0);
    assert_eq!(address.z, 1019);
    assert_eq!(address.extension, "png");
    assert_eq!(address.content_type, "image/png");
}

#[test]
fn tile_request_for_the_centre_tile() {
    let address = resolve_tile(2, 256, "256.jpg").unwrap();
    assert_eq!(
        address,
        TileAddress {
            zoom: 2,
            x: 0,
            z: 0,
            extension: String::from("jpg"),
            content_type: String::from("image/jpeg"),
        }
    );
}

#[test]
fn tile_request_with_an_extension_in_capitals() {
    let address = resolve_tile(0, 0, "0.PNG").unwrap();
    assert_eq!(address.extension, "PNG");
    assert_eq!(address.content_type, "image/png");
}

#[test]
fn tile_request_with_a_malformed_file_name() {
    assert_eq!(resolve_tile(0, 0, "abc.png"), Err(ClientRequestMalformed::InvalidRow));
    assert_eq!(resolve_tile(0, 0, "5"), Err(ClientRequestMalformed::MissingExtension));
    assert_eq!(resolve_tile(0, 0, "5."), Err(ClientRequestMalformed::MissingExtension));
    assert_eq!(resolve_tile(0, 0, ".png"), Err(ClientRequestMalformed::MissingStem));
}

#[test]
fn tile_request_with_an_unknown_extension() {
    assert_eq!(resolve_tile(0, 0, "5.foo"), Err(ClientRequestMalformed::UnknownExtension));
    assert_eq!(resolve_tile(64, 5, "5.foo"), Err(ClientRequestMalformed::UnknownExtension));
    assert_eq!(resolve_tile(0, 0, "abc.foo"), Err(ClientRequestMalformed::InvalidRow));
}

#[test]
fn tile_request_out_of_range() {
    assert_eq!(resolve_tile(64, 5, "0.png"), Err(ClientRequestMalformed::OutOfRange));
    assert_eq!(resolve_tile(63, 0, "-1.png"), Err(ClientRequestMalformed::OutOfRange));
    assert_eq!(resolve_tile(63, 0, "1.png").map(|a| (a.x, a.z)), Ok((0, i64::MIN)));
}
