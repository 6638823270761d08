use wzrd::change::Disposition;
use wzrd::decoration::Decoration;
use wzrd::layout::can_apply_gaps;
use wzrd::layout::can_arrange_bstack;
use wzrd::layout::can_arrange_paper;
use wzrd::layout::can_arrange_stack;
use wzrd::layout::can_center;
use wzrd::layout::can_take_gap;
use wzrd::layout::can_take_margin;
use wzrd::winsys::geometry::Dim;
use wzrd::winsys::geometry::Padding;
use wzrd::winsys::geometry::Pos;
use wzrd::winsys::geometry::Region;

fn screen() -> Region {
    Region { pos: Pos { x: 0, y: 0 }, dim: Dim { w: 1920, h: 1080 } }
}

fn far() -> Region {
    Region { pos: Pos { x: i32::MAX - 10, y: 0 }, dim: Dim { w: 1920, h: 1080 } }
}

#[test]
fn ordinary_regions_can_be_arranged() {
    assert!(can_center(screen(), Dim { w: 800, h: 600 }));
    assert!(can_arrange_stack(screen(), 5, 1, 960));
    assert!(can_arrange_bstack(screen(), 5, 2, 960));
    assert!(can_arrange_paper(screen(), 960, &vec![false, true, false]));
    assert!(can_take_gap(screen(), 10, &Dim { w: 25, h: 25 }));
    let margin = Padding { left: 5, right: 5, top: 5, bottom: 5 };
    assert!(can_take_margin(screen(), &margin));
    let items = vec![(Disposition::Changed(screen(), Decoration::no_decoration()), true)];
    assert!(can_apply_gaps(&items, true, 10));
}

#[test]
fn regions_at_the_edge_of_the_coordinates_cannot() {
    assert!(!can_center(far(), Dim { w: 800, h: 600 }));
    assert!(!can_arrange_stack(far(), 5, 1, 960));
    assert!(!can_arrange_paper(far(), 960, &vec![false, true, false]));
    assert!(!can_take_gap(far(), 20, &Dim { w: 25, h: 25 }));
    let margin = Padding { left: 20, right: 5, top: 5, bottom: 5 };
    assert!(!can_take_margin(far(), &margin));
    let items = vec![(Disposition::Changed(far(), Decoration::no_decoration()), true)];
    assert!(!can_apply_gaps(&items, true, 20));
    assert!(can_apply_gaps(&items, false, 20));
}
