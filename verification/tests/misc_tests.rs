use zeus::lights::{int_to_cascade, CASCADE_COUNT};
use zeus::noise::{noise_seed, X_SEED_SCALAR, Y_SEED_SCALAR};
use zeus::topology::{next_polygon_mode, PolygonMode};

#[test]
fn lib_it_works() {
    assert_eq!(2 + 2, 4);
}

#[test]
fn cascade_labels() {
    assert_eq!(CASCADE_COUNT, 4);
    assert_eq!(int_to_cascade(0), "global_light_shadow_0");
    assert_eq!(int_to_cascade(1), "global_light_shadow_1");
    assert_eq!(int_to_cascade(2), "global_light_shadow_2");
    assert_eq!(int_to_cascade(3), "global_light_shadow_3");
}

#[test]
fn polygon_mode_cycles() {
    assert_eq!(next_polygon_mode(PolygonMode::Fill), PolygonMode::Line);
    assert_eq!(next_polygon_mode(PolygonMode::Line), PolygonMode::Point);
    assert_eq!(next_polygon_mode(PolygonMode::Point), PolygonMode::Fill);
    for mode in [PolygonMode::Fill, PolygonMode::Line, PolygonMode::Point] {
        assert_eq!(next_polygon_mode(next_polygon_mode(next_polygon_mode(mode))), mode);
    }
}

#[test]
fn noise_seeds() {
    assert_eq!(noise_seed(0, 0, 0), 0);
    assert_eq!(noise_seed(7, 2, 3), (2 * X_SEED_SCALAR + 3 * Y_SEED_SCALAR + 7) as u64);
    assert_eq!(noise_seed(0, -1, 0), (-49_632i64) as u64);
    assert_eq!(noise_seed(5, 1, -1), (49_632i64 - 325_176 + 5) as u64);
}

#[test]
fn native_byte_order_is_detected() {
    assert_eq!(zeus::pod::native_is_little(), 1u16.to_ne_bytes()[0] == 1);
    let mut out = Vec::new();
    zeus::pod::encode_ne(0x0102, 2, &mut out);
    assert_eq!(out, 0x0102u16.to_ne_bytes().to_vec());
    assert_eq!(zeus::pod::decode_ne(&0x0a0b_0c0du32.to_ne_bytes()), 0x0a0b_0c0d);
}
