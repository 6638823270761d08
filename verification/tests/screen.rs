use wzrd::winsys::geometry::Edge;
use wzrd::winsys::geometry::Pos;
use wzrd::winsys::geometry::Region;
use wzrd::winsys::geometry::Strut;
use wzrd::winsys::screen::Screen;

#[test]
fn new_screen_has_no_struts() {
    let screen = Screen::new(Region::new(0, 0, 1920, 1080), 1);
    assert_eq!(screen.number(), 1);
    assert!(screen.showing_struts());
    assert_eq!(screen.full_region(), Region::new(0, 0, 1920, 1080));
    assert_eq!(screen.placeable_region(), Region::new(0, 0, 1920, 1080));
    assert_eq!(screen.max_strut_val(Edge::Top), None);
    assert!(!screen.contains_window(5));
}

#[test]
fn widest_strut_shapes_placeable_region() {
    let mut screen = Screen::new(Region::new(0, 0, 1920, 1080), 0);
    screen.add_strut(Edge::Top, 5, 20);
    screen.add_strut(Edge::Top, 6, 30);
    screen.add_strut(Edge::Top, 7, 10);
    screen.add_strut(Edge::Left, 8, 40);
    screen.add_strut(Edge::Bottom, 9, 15);
    screen.add_strut(Edge::Right, 10, 5);
    assert_eq!(screen.max_strut_val(Edge::Top), Some(30));
    assert_eq!(screen.max_strut_val(Edge::Left), Some(40));
    assert_eq!(screen.placeable_region(), Region::new(0, 0, 1920, 1080));
    screen.compute_placeable_region();
    assert_eq!(screen.placeable_region(), Region::new(40, 30, 1875, 1035));
    assert!(screen.has_strut_window(6));
    assert!(screen.placeable_encompasses(Pos { x: 40, y: 30 }));
    assert!(!screen.placeable_encompasses(Pos { x: 39, y: 30 }));
    assert!(screen.full_encompasses(Pos { x: 0, y: 0 }));
    assert!(screen.full_contains(Region::new(0, 0, 100, 100)));
    assert!(!screen.placeable_contains(Region::new(0, 0, 100, 100)));
    assert!(screen.full_occludes(Region::new(1900, 1000, 100, 100)));
    assert!(screen.placeable_occludes(Region::new(100, 100, 10, 10)));
}

#[test]
fn hiding_struts_frees_the_screen() {
    let mut screen = Screen::new(Region::new(0, 0, 800, 600), 0);
    screen.add_strut(Edge::Top, 5, 20);
    screen.add_strut(Edge::Left, 5, 10);
    let mut windows = screen.show_and_yield_struts(false);
    windows.sort();
    assert_eq!(windows, vec![5]);
    assert!(!screen.showing_struts());
    assert_eq!(screen.placeable_region(), Region::new(0, 0, 800, 600));
    screen.show_and_yield_struts(true);
    assert_eq!(screen.placeable_region(), Region::new(10, 20, 790, 580));
}

#[test]
fn removing_a_window_strut_everywhere() {
    let mut screen = Screen::new(Region::new(0, 0, 800, 600), 0);
    screen.add_strut(Edge::Top, 5, 20);
    screen.add_strut(Edge::Bottom, 5, 25);
    screen.add_strut(Edge::Top, 6, 10);
    screen.remove_window_strut(5);
    assert_eq!(screen.max_strut_val(Edge::Top), Some(10));
    assert_eq!(screen.max_strut_val(Edge::Bottom), None);
    assert!(!screen.has_strut_window(5));
    assert!(screen.has_strut_window(6));
    screen.update_strut(Edge::Left, 6, 12);
    assert_eq!(screen.max_strut_val(Edge::Top), None);
    assert_eq!(screen.max_strut_val(Edge::Left), Some(12));
    screen.compute_placeable_region();
    assert_eq!(screen.placeable_region(), Region::new(12, 0, 788, 600));
}

#[test]
fn adding_struts_for_each_edge() {
    let mut screen = Screen::new(Region::new(0, 0, 800, 600), 3);
    screen.add_struts(vec![
        Some(Strut::new(1, 10)),
        None,
        Some(Strut::new(2, 20)),
        Some(Strut::new(1, 5)),
    ]);
    assert_eq!(screen.max_strut_val(Edge::Left), Some(10));
    assert_eq!(screen.max_strut_val(Edge::Right), None);
    assert_eq!(screen.max_strut_val(Edge::Top), Some(20));
    assert_eq!(screen.max_strut_val(Edge::Bottom), Some(5));
    let mut windows = screen.show_and_yield_struts(true);
    windows.sort();
    assert_eq!(windows, vec![1, 2]);
    assert_eq!(screen.placeable_region(), Region::new(10, 20, 790, 575));
    screen.set_number(4);
    assert_eq!(screen.number(), 4);
}
