use geojson_vt::to_id;

#[test]
fn to_id_root_is_zero() {
    assert_eq!(to_id(0, 0, 0), 0);
}

#[test]
fn to_id_matches_packing_formula() {
    let expected: u64 = (((1u64 << 5) * 9 + 19) * 32) + 5;
    assert_eq!(to_id(5, 19, 9), expected);
    assert_eq!(expected, 9829);
}

#[test]
fn to_id_distinct_for_distinct_tiles() {
    let root: u64 = to_id(0, 0, 0);
    let a: u64 = to_id(1, 0, 0);
    let b: u64 = to_id(1, 1, 0);
    let c: u64 = to_id(1, 0, 1);
    let d: u64 = to_id(1, 1, 1);
    let e: u64 = to_id(2, 3, 1);
    assert_ne!(root, a);
    assert_ne!(root, b);
    assert_ne!(a, b);
    assert_ne!(a, c);
    assert_ne!(a, d);
    assert_ne!(b, c);
    assert_ne!(b, d);
    assert_ne!(c, d);
    assert_ne!(d, e);
    assert_ne!(a, e);
}

#[test]
fn to_id_deepest_corner() {
    // The deepest zoom with both grid coordinates zero packs to the zoom alone.
    assert_eq!(to_id(31, 0, 0), 31);
    assert_eq!(to_id(31, 5, 0), 5 * 32 + 31);
}
