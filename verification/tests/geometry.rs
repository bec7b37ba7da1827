use dynmap_wmts::geometry::{
    matrix_size, scale_denominator, tile_matrices, tile_size, top_left_corner, ScaleDenominator,
    TileMatrix, BASE_BLOCKS_PER_TILE, WORLD_SIZE,
};

#[test]
fn tile_size_of_scale_zero_and_one() {
    assert_eq!(tile_size(0), 128);
    assert_eq!(tile_size(1), 256);
}

#[test]
fn tile_size_doubles_with_each_scale() {
    let mut expected: u64 = 128;
    for tilescale in 0..=56u64 {
        assert_eq!(tile_size(tilescale), expected);
        if tilescale < 56 {
            expected *= 2;
        }
    }
    assert_eq!(tile_size(56), 1u64 << 63);
}

#[test]
fn matrix_size_exact_values() {
    assert_eq!(matrix_size(0), 2048);
    assert_eq!(matrix_size(1), 1024);
    assert_eq!(matrix_size(2), 512);
    assert_eq!(matrix_size(3), 256);
    assert_eq!(matrix_size(9), 4);
    assert_eq!(matrix_size(10), 2);
    assert_eq!(matrix_size(11), 1);
    assert_eq!(matrix_size(12), 1);
    assert_eq!(matrix_size(64), 1);
    assert_eq!(matrix_size(u64::MAX), 1);
}

#[test]
fn matrix_size_is_the_rounded_up_quotient() {
    for zoomout in 0..=20u64 {
        let blocks = (BASE_BLOCKS_PER_TILE as u128) << zoomout;
        let size = matrix_size(zoomout) as u128;
        assert!(size * blocks >= WORLD_SIZE as u128);
        assert!((size - 1) * blocks < WORLD_SIZE as u128);
    }
}

#[test]
fn matrix_size_never_grows_with_zoomout() {
    for zoomout in 0..80u64 {
        assert!(matrix_size(zoomout) >= matrix_size(zoomout + 1));
    }
}

#[test]
fn scale_denominator_is_the_exact_fraction() {
    let scale = scale_denominator(128, 0);
    assert_eq!(scale, ScaleDenominator { numerator: 3_200_000, shift: 0, denominator: 3584 });
    let scale = scale_denominator(256, 3);
    assert_eq!(scale, ScaleDenominator { numerator: 3_200_000, shift: 3, denominator: 7168 });
    let value = scale.numerator as f64 * 8.0 / scale.denominator as f64;
    let expected = 1.0 / (256.0 * 0.00028 / 32.0) * 8.0;
    assert!((value - expected).abs() < 1e-9);
}

#[test]
fn scale_denominator_of_the_largest_tile_size() {
    let scale = scale_denominator(u64::MAX, u64::MAX);
    assert_eq!(scale.denominator, u64::MAX as u128 * 28);
    assert_eq!(scale.shift, u64::MAX);
}

#[test]
fn scale_denominator_grows_with_zoomout() {
    for zoomout in 0..40u64 {
        let low = scale_denominator(128, zoomout);
        let high = scale_denominator(128, zoomout + 1);
        let left = (low.numerator as u128) << low.shift;
        let right = (high.numerator as u128) << high.shift;
        assert!(left * high.denominator < right * low.denominator);
    }
}

#[test]
fn top_left_corner_is_fixed() {
    assert_eq!(top_left_corner(), (-32767, 32799));
    let half = (WORLD_SIZE / 2) as i64;
    assert_eq!(top_left_corner(), (-half, half + 32));
}

#[test]
fn tile_matrix_of_one_level() {
    let matrix = TileMatrix::new(256, 2);
    assert_eq!(matrix.identifier, "2");
    assert_eq!(matrix.tile_size, 256);
    assert_eq!(matrix.scale_denominator, scale_denominator(256, 2));
    assert_eq!(matrix.top_left_corner, (-32767, 32799));
    assert_eq!(matrix.matrix_size, 512);
}

#[test]
fn tile_matrices_cover_every_level_in_ascending_order() {
    let matrices = tile_matrices(128, 12);
    assert_eq!(matrices.len(), 13);
    for (zoomout, matrix) in matrices.iter().enumerate() {
        assert_eq!(matrix.identifier, format!("{}", zoomout));
        assert_eq!(matrix.tile_size, 128);
        assert_eq!(matrix.matrix_size, matrix_size(zoomout as u64));
        assert_eq!(matrix.scale_denominator.shift, zoomout as u64);
        assert_eq!(matrix.top_left_corner, top_left_corner());
    }
}

#[test]
fn tile_matrices_of_a_map_without_zoomout() {
    let matrices = tile_matrices(128, 0);
    assert_eq!(matrices.len(), 1);
    assert_eq!(matrices[0].identifier, "0");
    assert_eq!(matrices[0].matrix_size, 2048);
}

#[test]
fn tile_matrix_same_compares_every_field() {
    let matrix = TileMatrix::new(128, 1);
    assert!(matrix.same(&matrix.clone()));
    assert!(!matrix.same(&TileMatrix::new(128, 2)));
    assert!(!matrix.same(&TileMatrix::new(256, 1)));
    let mut other = matrix.clone();
    other.top_left_corner = (0, 0);
    assert!(!matrix.same(&other));
    let mut other = matrix.clone();
    other.matrix_size = 7;
    assert!(!matrix.same(&other));
    let mut other = matrix.clone();
    other.identifier = String::from("one");
    assert!(!matrix.same(&other));
}
