use passpartout_printer::coords::Coord;

#[test]
fn new_sets_components() {
    let c = Coord::new(3, -4);
    assert_eq!(c.x, 3);
    assert_eq!(c.y, -4);
}

#[test]
fn add_is_componentwise() {
    let a = Coord::new(2, 3);
    let b = Coord::new(10, -1);
    let c = a.add(&b);
    assert_eq!((c.x, c.y), (12, 2));
}

#[test]
fn sub_is_componentwise() {
    let a = Coord::new(2, 3);
    let b = Coord::new(10, -1);
    let c = a.sub(&b);
    assert_eq!((c.x, c.y), (-8, 4));
}

#[test]
fn mul_scales_both_components() {
    let a = Coord::new(2, -3);
    let c = a.mul(5);
    assert_eq!((c.x, c.y), (10, -15));
}

#[test]
fn from_slice_builds_coord_list() {
    let v = Coord::from_slice(&vec![(1, 2), (3, 4), (-5, 6)]);
    assert_eq!(v.len(), 3);
    assert_eq!((v[0].x, v[0].y), (1, 2));
    assert_eq!((v[1].x, v[1].y), (3, 4));
    assert_eq!((v[2].x, v[2].y), (-5, 6));
}

#[test]
fn from_pair_conversion() {
    let c = Coord::from((7, 8));
    assert_eq!((c.x, c.y), (7, 8));
}
