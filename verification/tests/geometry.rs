use wzrd::winsys::geometry::halved;
use wzrd::winsys::geometry::rounded_half;
use wzrd::winsys::geometry::Corner;
use wzrd::winsys::geometry::Dim;
use wzrd::winsys::geometry::Distance;
use wzrd::winsys::geometry::Padding;
use wzrd::winsys::geometry::Pos;
use wzrd::winsys::geometry::Ratio;
use wzrd::winsys::geometry::Region;
use wzrd::winsys::geometry::Strut;

#[test]
fn halves_truncate_and_round_away_from_zero() {
    assert_eq!(halved(7), 3);
    assert_eq!(halved(-7), -3);
    assert_eq!(halved(i32::MIN), -1073741824);
    assert_eq!(rounded_half(7), 4);
    assert_eq!(rounded_half(-7), -4);
    assert_eq!(rounded_half(6), 3);
    assert_eq!(rounded_half(i32::MAX), 1073741824);
}

#[test]
fn center_of_region_truncates_halves() {
    let p = Pos::from_center_of_region(Region::new(10, 20, 101, 51));
    assert_eq!(p, Pos { x: 60, y: 45 });
    let q = Pos::from_center_of_region(Region::new(10, 20, -5, -1));
    assert_eq!(q, Pos { x: 8, y: 20 });
    assert_eq!(Pos::from_center_of_dim(Dim { w: 9, h: 4 }), Pos { x: 4, y: 2 });
    assert_eq!(Dim { w: 9, h: -3 }.center(), Pos { x: 4, y: -1 });
}

#[test]
fn positions_and_distances() {
    let a = Pos { x: 3, y: 4 };
    let b = Pos { x: 10, y: -2 };
    assert_eq!(a.dist(b), Distance { dx: 7, dy: -6 });
    assert_eq!(b.relative_to(a), Pos { x: 7, y: -6 });
    assert_eq!(a.values(), (3, 4));
    assert!(Pos { x: 0, y: 0 }.is_origin());
    assert!(!a.is_origin());
    assert_eq!(Pos::default(), Pos { x: 0, y: 0 });
    assert_eq!(Distance { dx: 7, dy: -6 }.values(), (7, -6));
}

#[test]
fn pythagorean_rounds_to_nearest() {
    assert_eq!(Distance { dx: 3, dy: 4 }.pythagorean(), 5);
    assert_eq!(Distance { dx: 1, dy: 1 }.pythagorean(), 1);
    assert_eq!(Distance { dx: 1, dy: 2 }.pythagorean(), 2);
    assert_eq!(Distance { dx: 2, dy: 3 }.pythagorean(), 4);
    assert_eq!(Distance { dx: 0, dy: 0 }.pythagorean(), 0);
    assert_eq!(Distance { dx: -46340, dy: 46340 }.pythagorean(), 65535);
}

#[test]
fn nearest_corner_of_dim_and_region() {
    let d = Dim { w: 100, h: 100 };
    assert_eq!(d.nearest_corner(Pos { x: 10, y: 10 }), Corner::TopLeft);
    assert_eq!(d.nearest_corner(Pos { x: 50, y: 10 }), Corner::TopRight);
    assert_eq!(d.nearest_corner(Pos { x: 10, y: 50 }), Corner::BottomLeft);
    assert_eq!(d.nearest_corner(Pos { x: 99, y: 99 }), Corner::BottomRight);
    let r = Region::new(10, 10, 100, 100);
    assert_eq!(r.nearest_corner(Pos { x: 100, y: 20 }), Corner::TopRight);
    assert_eq!(r.nearest_corner(Pos { x: 20, y: 100 }), Corner::BottomLeft);
}

#[test]
fn encompasses_contains_occludes() {
    let r = Region::new(0, 0, 100, 50);
    assert!(r.encompasses(Pos { x: 0, y: 0 }));
    assert!(r.encompasses(Pos { x: 100, y: 50 }));
    assert!(!r.encompasses(Pos { x: 101, y: 50 }));
    assert!(!r.encompasses(Pos { x: -1, y: 0 }));
    assert!(r.contains(Region::new(10, 10, 20, 20)));
    assert!(r.contains(r));
    assert!(!r.contains(Region::new(90, 10, 20, 20)));
    assert!(r.occludes(Region::new(90, 40, 20, 20)));
    assert!(Region::new(-10, -10, 20, 20).occludes(r));
    assert!(!r.occludes(Region::new(200, 200, 5, 5)));
    let far = Region::new(i32::MAX, 0, i32::MAX, 0);
    assert!(!far.encompasses(Pos { x: 0, y: 0 }));
    assert!(far.encompasses(Pos { x: i32::MAX, y: 0 }));
}

#[test]
fn splits_tile_the_region() {
    let r = Region::new(0, 0, 100, 50);
    assert_eq!(r.split_at_width(30), (Region::new(0, 0, 30, 50), Region::new(30, 0, 70, 50)));
    assert_eq!(r.split_at_width(300), (Region::new(0, 0, 100, 50), Region::new(100, 0, 0, 50)));
    assert_eq!(r.split_at_height(20), (Region::new(0, 0, 100, 20), Region::new(0, 20, 100, 30)));
    assert_eq!(r.split_at_height(60), (Region::new(0, 0, 100, 50), Region::new(0, 50, 100, 0)));
}

#[test]
fn minimum_and_maximum_dims() {
    let r = Region::new(5, 5, 100, 20);
    assert_eq!(r.with_minimum_dim(&Dim { w: 50, h: 40 }), Region::new(5, 5, 100, 40));
    assert_eq!(r.with_maximum_dim(&Dim { w: 50, h: 40 }), Region::new(5, 5, 50, 20));
}

#[test]
fn inner_center() {
    let r = Region::new(0, 0, 100, 100);
    assert_eq!(r.from_absolute_inner_center(Dim { w: 50, h: 21 }), Region::new(25, 39, 50, 21));
    assert_eq!(r.from_absolute_inner_center(Dim { w: 150, h: 100 }), Region::new(0, 0, 150, 100));
}

#[test]
fn extents_round_trip() {
    let r = Region::new(10, 20, 300, 200);
    let e = Padding { left: 3, right: 1, top: 5, bottom: 2 };
    let framed = r.with_extents(e);
    assert_eq!(framed, Region::new(7, 15, 304, 207));
    assert_eq!(framed.without_extents(e), r);
    assert_eq!(r.without_extents(e), Region::new(13, 25, 296, 193));
    assert_eq!(r.without_extents(e).with_extents(e), r);
}

#[test]
fn corners_of_region() {
    let r = Region::new(10, 20, 30, 40);
    assert_eq!(r.top_right(), Pos { x: 40, y: 20 });
    assert_eq!(r.bottom_left(), Pos { x: 10, y: 60 });
    assert_eq!(r.bottom_right(), Pos { x: 40, y: 60 });
    assert_eq!(r.values(), (Pos { x: 10, y: 20 }, Dim { w: 30, h: 40 }));
    assert_eq!(Region::default(), Region::new(0, 0, 0, 0));
}

#[test]
fn quadrant_center_from_outside_point() {
    let r = Region::new(0, 0, 100, 100);
    assert_eq!(r.quadrant_center_from_pos(Pos { x: 50, y: 50 }), None);
    assert_eq!(r.quadrant_center_from_pos(Pos { x: 150, y: 10 }), Some(Pos { x: 75, y: 25 }));
    assert_eq!(r.quadrant_center_from_pos(Pos { x: -20, y: -20 }), Some(Pos { x: 25, y: 25 }));
    assert_eq!(r.quadrant_center_from_pos(Pos { x: -5, y: 120 }), Some(Pos { x: 25, y: 75 }));
    assert_eq!(r.quadrant_center_from_pos(Pos { x: 130, y: 130 }), Some(Pos { x: 75, y: 75 }));
    let odd = Region::new(0, 0, 101, 11);
    assert_eq!(odd.quadrant_center_from_pos(Pos { x: 200, y: 200 }), Some(Pos { x: 76, y: 8 }));
    assert_eq!(r.quadrant_center_from_pos(Pos { x: 50, y: -10 }), Some(Pos { x: 25, y: 25 }));
}

#[test]
fn small_constructors() {
    assert_eq!(Padding::with_each_edge(4), Padding { left: 4, right: 4, top: 4, bottom: 4 });
    assert_eq!(Ratio::new(16, 9), Ratio { numerator: 16, denominator: 9 });
    assert_eq!(Strut::new(7, 30), Strut { window: 7, width: 30 });
    assert_eq!(Dim { w: 1, h: 2 }.values(), (1, 2));
    assert_eq!(Padding::default(), Padding::with_each_edge(0));
    assert_eq!(Dim::default(), Dim { w: 0, h: 0 });
}

#[test]
fn points_add_and_subtract_coordinatewise() {
    let p = Pos { x: 10, y: -4 };
    assert_eq!(p + Pos { x: 3, y: 7 }, Pos { x: 13, y: 3 });
    assert_eq!(p + Dim { w: 5, h: 6 }, Pos { x: 15, y: 2 });
    assert_eq!(p - Dim { w: 5, h: 6 }, Pos { x: 5, y: -10 });
    assert_eq!(p - Pos { x: 4, y: 1 }, Dim { w: 6, h: -5 });
    assert_eq!(p + Distance { dx: -2, dy: 2 }, Pos { x: 8, y: -2 });
    assert_eq!(p - Distance { dx: -2, dy: 2 }, Pos { x: 12, y: -6 });
}

#[test]
fn dimensions_with_offset_stay_non_negative() {
    let d = Dim { w: 10, h: 4 };
    assert_eq!(d + Distance { dx: 5, dy: -9 }, Dim { w: 15, h: 5 });
    assert_eq!(d - Distance { dx: 12, dy: 1 }, Dim { w: 2, h: 3 });
}

#[test]
fn padding_grows_and_shrinks_dimensions_and_regions() {
    let pad = Padding { left: 1, right: 2, top: 3, bottom: 4 };
    assert_eq!(Dim { w: 10, h: 10 } + pad, Dim { w: 13, h: 17 });
    assert_eq!(Dim { w: 10, h: 10 } - pad, Dim { w: 7, h: 3 });
    let r = Region { pos: Pos { x: 5, y: 5 }, dim: Dim { w: 20, h: 30 } };
    let grown = r + pad;
    assert_eq!(grown, Region { pos: Pos { x: 4, y: 2 }, dim: Dim { w: 23, h: 37 } });
    assert_eq!(grown - pad, r);
}

#[test]
fn struts_order_widest_first() {
    let wide = Strut::new(1, 40);
    let narrow = Strut::new(2, 10);
    assert!(wide < narrow);
    assert!(narrow > wide);
    assert_eq!(wide.partial_cmp(&Strut::new(3, 40)), Some(std::cmp::Ordering::Equal));
}
