use geojson_vt::coords::{child_coords, wrap_tile_x};

#[test]
fn wrap_keeps_x_already_in_row() {
    assert_eq!(wrap_tile_x(19, 5), 19);
    assert_eq!(wrap_tile_x(31, 5), 31);
}

#[test]
fn wrap_reduces_overflowing_x() {
    assert_eq!(wrap_tile_x(32, 5), 0);
    assert_eq!(wrap_tile_x(33, 5), 1);
    assert_eq!(wrap_tile_x(100, 5), 4);
}

#[test]
fn wrap_at_root_is_always_zero() {
    assert_eq!(wrap_tile_x(0, 0), 0);
    assert_eq!(wrap_tile_x(7, 0), 0);
}

#[test]
fn wrap_at_deepest_zoom() {
    assert_eq!(wrap_tile_x(u32::MAX, 31), u32::MAX - (1u32 << 31));
}

#[test]
fn children_cover_the_four_quadrants() {
    assert_eq!(child_coords(3, 5, 2, false, false), (4, 10, 4));
    assert_eq!(child_coords(3, 5, 2, true, false), (4, 11, 4));
    assert_eq!(child_coords(3, 5, 2, false, true), (4, 10, 5));
    assert_eq!(child_coords(3, 5, 2, true, true), (4, 11, 5));
}

#[test]
fn children_of_the_root() {
    assert_eq!(child_coords(0, 0, 0, false, false), (1, 0, 0));
    assert_eq!(child_coords(0, 0, 0, true, true), (1, 1, 1));
}
