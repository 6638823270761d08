use wzrd::manipulate::plan_manage;
use wzrd::manipulate::ManageInfo;
use wzrd::manipulate::manage_flags;
use wzrd::winsys::hints::Hints;
use wzrd::change::Toggle;
use wzrd::client::Client;
use wzrd::dispatch::is_applyable;
use wzrd::dispatch::is_focusable;
use wzrd::dispatch::dock_strut;
use wzrd::dispatch::jump_target;
use wzrd::dispatch::resolve_toggle;
use wzrd::dispatch::route_mouse;
use wzrd::dispatch::unmanaged_layer;
use wzrd::dispatch::MouseRoute;
use wzrd::manipulate::centered_on_manage;
use wzrd::manipulate::managed_workspace;
use wzrd::manipulate::move_region;
use wzrd::manipulate::nudge_region;
use wzrd::manipulate::request_region;
use wzrd::manipulate::resize_dim;
use wzrd::manipulate::resize_region;
use wzrd::manipulate::snap_region;
use wzrd::manipulate::stretch_region;
use wzrd::rule::detect_rules;
use wzrd::rule::Rules;
use wzrd::stack::StackLayer;
use wzrd::winsys::event::ToggleAction;
use wzrd::winsys::geometry::Corner;
use wzrd::winsys::geometry::Dim;
use wzrd::winsys::geometry::Edge;
use wzrd::winsys::geometry::Padding;
use wzrd::winsys::geometry::Pos;
use wzrd::winsys::geometry::Region;
use wzrd::winsys::input::Grip;
use wzrd::winsys::input::MouseEventKind;
use wzrd::winsys::window::WindowState;
use wzrd::winsys::window::WindowType;

fn region(x: i32, y: i32, w: i32, h: i32) -> Region {
    Region { pos: Pos { x, y }, dim: Dim { w, h } }
}

#[test]
fn client_dimension_constants() {
    assert_eq!(Client::min_client_dim(), Dim { w: 75, h: 50 });
    assert_eq!(Client::preferred_client_dim(), Dim { w: 480, h: 260 });
}

#[test]
fn snapping_goes_flush_against_the_edge() {
    let placeable = region(0, 20, 1000, 700);
    let r = region(100, 100, 300, 200);
    assert_eq!(snap_region(r, placeable, Edge::Left), region(0, 100, 300, 200));
    assert_eq!(snap_region(r, placeable, Edge::Right), region(700, 100, 300, 200));
    assert_eq!(snap_region(r, placeable, Edge::Top), region(100, 20, 300, 200));
    assert_eq!(snap_region(r, placeable, Edge::Bottom), region(100, 520, 300, 200));
    let wide = region(100, 100, 1200, 900);
    assert_eq!(snap_region(wide, placeable, Edge::Right), region(0, 100, 1200, 900));
    assert_eq!(snap_region(wide, placeable, Edge::Bottom), region(100, 0, 1200, 900));
}

#[test]
fn nudging_moves_toward_the_edge() {
    let r = region(100, 100, 300, 200);
    assert_eq!(nudge_region(r, Edge::Left, 15), region(85, 100, 300, 200));
    assert_eq!(nudge_region(r, Edge::Right, 15), region(115, 100, 300, 200));
    assert_eq!(nudge_region(r, Edge::Top, 15), region(100, 85, 300, 200));
    assert_eq!(nudge_region(r, Edge::Bottom, -15), region(100, 85, 300, 200));
}

#[test]
fn stretching_keeps_the_minimum_and_the_opposite_side() {
    let extents = Padding { left: 3, right: 1, top: 1, bottom: 1 };
    let free = region(100, 100, 304, 202);
    assert_eq!(stretch_region(free, extents, Edge::Left, 20), Some(region(80, 100, 324, 202)));
    assert_eq!(stretch_region(free, extents, Edge::Right, 20), Some(region(100, 100, 324, 202)));
    assert_eq!(stretch_region(free, extents, Edge::Top, -20), Some(region(100, 120, 304, 182)));
    assert_eq!(stretch_region(free, extents, Edge::Left, -250), Some(region(325, 100, 79, 202)));
    assert_eq!(stretch_region(free, extents, Edge::Right, -300), None);
    assert_eq!(stretch_region(free, extents, Edge::Bottom, 20), None);
    assert_eq!(stretch_region(free, extents, Edge::Bottom, -20), None);
}

#[test]
fn moving_follows_the_pointer() {
    let grabbed = region(100, 100, 300, 200);
    let moved = move_region(grabbed, Pos { x: 150, y: 150 }, Pos { x: 170, y: 120 }, Dim { w: 300, h: 200 });
    assert_eq!(moved, region(120, 70, 300, 200));
}

#[test]
fn resizing_pulls_the_gripped_sides() {
    let grabbed = region(100, 100, 300, 200);
    let grip_pos = Pos { x: 100, y: 100 };
    let pos = Pos { x: 80, y: 130 };
    let top_left = Grip::Corner(Corner::TopLeft);
    assert_eq!(resize_dim(grabbed, top_left, grip_pos, pos), Dim { w: 320, h: 170 });
    let bottom_right = Grip::Corner(Corner::BottomRight);
    assert_eq!(resize_dim(grabbed, bottom_right, grip_pos, pos), Dim { w: 280, h: 230 });
    assert_eq!(
        resize_dim(grabbed, bottom_right, grip_pos, Pos { x: -500, y: -500 }),
        Dim { w: 0, h: 0 }
    );
    let extents = Padding { left: 3, right: 1, top: 1, bottom: 1 };
    let inner_pos = Pos { x: 103, y: 101 };
    let r = resize_region(inner_pos, Dim { w: 316, h: 168 }, extents, grabbed, top_left);
    assert_eq!(r, region(80, 130, 320, 170));
    let r = resize_region(inner_pos, Dim { w: 276, h: 228 }, extents, grabbed, bottom_right);
    assert_eq!(r, region(100, 100, 280, 230));
}

#[test]
fn requested_regions_count_the_frame_for_the_own_window() {
    let extents = Padding { left: 3, right: 1, top: 1, bottom: 1 };
    let free = region(10, 10, 100, 100);
    let own = request_region(true, Some(Pos { x: 50, y: 60 }), Some(Dim { w: 200, h: 100 }), extents, free);
    assert_eq!(own, region(47, 59, 204, 102));
    let frame = request_region(false, Some(Pos { x: 50, y: 60 }), None, extents, free);
    assert_eq!(frame, region(50, 60, 100, 100));
    assert_eq!(request_region(true, None, None, extents, free), free);
}

#[test]
fn managed_windows_go_to_the_right_workspace_and_place() {
    assert_eq!(managed_workspace(Some(3), Some(1), 10, 0), 3);
    assert_eq!(managed_workspace(None, Some(1), 10, 0), 1);
    assert_eq!(managed_workspace(None, Some(12), 10, 4), 4);
    assert_eq!(managed_workspace(None, None, 10, 4), 4);
    assert!(centered_on_manage(true, Some(true), false));
    assert!(centered_on_manage(false, None, true));
    assert!(centered_on_manage(false, Some(false), true));
    assert!(!centered_on_manage(false, Some(true), true));
    assert!(!centered_on_manage(false, None, false));
}

#[test]
fn rules_are_read_from_the_instance_name() {
    let none = Rules::default();
    assert_eq!(detect_rules("firefox", 10), none);
    assert_eq!(detect_rules("wzrd:", 10), none);
    assert_eq!(detect_rules("wzrd", 10), none);
    let r = detect_rules("wzrd:f!cw3", 10);
    assert_eq!(r.float, Some(true));
    assert_eq!(r.center, Some(false));
    assert_eq!(r.workspace, Some(3));
    assert_eq!(r.fullscreen, None);
    let r = detect_rules("wzrd:w9F", 5);
    assert_eq!(r.workspace, None);
    assert_eq!(r.fullscreen, Some(true));
    let r = detect_rules("wzrd:wf", 5);
    assert_eq!(r.float, None);
    assert_eq!(r.workspace, None);
}

#[test]
fn mouse_events_are_routed() {
    let press = MouseEventKind::Press;
    assert_eq!(route_mouse(MouseEventKind::Release, true, true, true, true, true), MouseRoute::EndGrab);
    assert_eq!(route_mouse(MouseEventKind::Motion, false, false, false, false, false), MouseRoute::Drag);
    assert_eq!(route_mouse(press, true, true, true, true, true), MouseRoute::Global);
    assert_eq!(route_mouse(press, true, false, true, true, true), MouseRoute::Root);
    assert_eq!(route_mouse(press, false, false, true, true, true), MouseRoute::Client);
    assert_eq!(route_mouse(press, false, false, false, false, true), MouseRoute::Focus);
    assert_eq!(route_mouse(press, false, false, false, true, false), MouseRoute::Ignore);
}

#[test]
fn unmanaged_windows_get_layers_by_state_and_type() {
    assert_eq!(unmanaged_layer(Some(WindowState::Below), WindowType::Dock), Some(StackLayer::Below));
    assert_eq!(unmanaged_layer(Some(WindowState::Above), WindowType::Dock), Some(StackLayer::Dock));
    assert_eq!(unmanaged_layer(None, WindowType::Desktop), Some(StackLayer::Desktop));
    assert_eq!(unmanaged_layer(None, WindowType::Notification), Some(StackLayer::Notification));
    assert_eq!(unmanaged_layer(Some(WindowState::Above), WindowType::Normal), Some(StackLayer::Above));
    assert_eq!(unmanaged_layer(None, WindowType::Normal), None);
}

#[test]
fn docks_reserve_struts_by_where_they_sit() {
    let full = region(0, 0, 1920, 1080);
    assert_eq!(dock_strut(region(0, 0, 1920, 30), full), Some((Edge::Top, 30)));
    assert_eq!(dock_strut(region(0, 0, 40, 1080), full), Some((Edge::Left, 40)));
    assert_eq!(dock_strut(region(0, 0, 300, 20), full), Some((Edge::Top, 20)));
    assert_eq!(dock_strut(region(0, 0, 20, 300), full), Some((Edge::Left, 20)));
    assert_eq!(dock_strut(region(100, 1050, 800, 30), full), Some((Edge::Bottom, 30)));
    assert_eq!(dock_strut(region(1880, 100, 40, 800), full), Some((Edge::Right, 40)));
    assert_eq!(dock_strut(region(100, 100, 40, 800), full), None);
}

#[test]
fn toggles_resolve_by_fullscreen_state() {
    assert_eq!(resolve_toggle(ToggleAction::Toggle, true), ToggleAction::Remove);
    assert_eq!(resolve_toggle(ToggleAction::Toggle, false), ToggleAction::Add);
    assert_eq!(resolve_toggle(ToggleAction::Add, true), ToggleAction::Add);
}

#[test]
fn jumps_toggle_between_two_clients() {
    assert_eq!(jump_target(0x20, Some(0x10), None), (0x20, Some(0x10)));
    assert_eq!(jump_target(0x20, Some(0x20), Some(0x10)), (0x10, Some(0x20)));
    assert_eq!(jump_target(0x20, Some(0x20), Some(0x20)), (0x20, Some(0x20)));
    assert_eq!(jump_target(0x20, None, Some(0x10)), (0x20, Some(0x10)));
}

#[test]
fn applyable_and_focusable_clients() {
    let mut client = Client::new(1, 0x10, 0x11, String::new(), String::new(), String::new(), WindowType::Normal, None, None);
    assert!(is_applyable(&client));
    assert!(is_focusable(&client));
    client.set_floating(Toggle::On);
    assert!(!is_applyable(&client));
    client.set_floating(Toggle::Off);
    client.set_fullscreen(Toggle::On);
    assert!(!is_applyable(&client));
    client.set_contained(Toggle::On);
    assert!(is_applyable(&client));
    client.set_iconified(Toggle::On);
    assert!(!is_focusable(&client));
}

#[test]
fn rules_are_handed_on_to_clients() {
    let mut client = Client::new(1, 0x10, 0x11, String::new(), String::new(), String::new(), WindowType::Normal, None, None);
    let rules = Rules { float: Some(true), center: Some(true), fullscreen: None, workspace: Some(2), context: None };
    rules.propagate(&mut client);
    assert!(client.is_floating());
    assert!(!client.is_fullscreen());
    assert_eq!(client.workspace(), 2);
    assert_eq!(client.context(), 0);
    let rules = Rules { float: Some(false), center: None, fullscreen: Some(true), workspace: None, context: Some(1) };
    rules.propagate(&mut client);
    assert!(!client.is_floating());
    assert!(client.is_fullscreen());
    assert_eq!(client.workspace(), 2);
    assert_eq!(client.context(), 1);
}

#[test]
fn snapping_twice_and_nudging_back() {
    let placeable = region(0, 20, 1000, 700);
    let r = region(100, 100, 300, 200);
    for edge in [Edge::Left, Edge::Right, Edge::Top, Edge::Bottom] {
        let once = snap_region(r, placeable, edge);
        assert_eq!(snap_region(once, placeable, edge), once);
    }
    assert_eq!(nudge_region(nudge_region(r, Edge::Left, 30), Edge::Right, 30), r);
    assert_eq!(nudge_region(nudge_region(r, Edge::Bottom, 30), Edge::Top, 30), r);
    let grabbed = region(5, 6, 70, 80);
    assert_eq!(move_region(grabbed, Pos { x: 9, y: 9 }, Pos { x: 9, y: 9 }, grabbed.dim), grabbed);
}

#[test]
fn transient_and_led_windows_float_and_hints_give_urgency() {
    let plain = manage_flags(5, false, false, None, None, None);
    assert!(!plain.floating);
    assert_eq!(plain.urgent, None);
    let transient = manage_flags(5, false, false, Some(9), None, None);
    assert!(transient.floating);
    assert_eq!(transient.parent, Some(9));
    let led = manage_flags(5, false, false, None, Some(7), Some(Hints::new(true, None, None, None)));
    assert!(led.floating);
    assert_eq!(led.leader, Some(7));
    assert_eq!(led.urgent, Some(true));
    let own_leader = manage_flags(5, false, false, None, Some(5), None);
    assert!(!own_leader.floating);
    assert_eq!(own_leader.leader, None);
    assert!(manage_flags(5, true, false, None, None, None).floating);
    assert!(manage_flags(5, false, true, None, None, None).floating);
}

#[test]
fn managing_a_window_at_the_origin_centers_it_on_its_workspace() {
    let info = ManageInfo {
        geometry: Region { pos: Pos { x: 0, y: 0 }, dim: Dim { w: 400, h: 300 } },
        at_origin: true,
        by_user: None,
        desktop: Some(7),
        must_free: false,
        fullscreen: false,
        sticky: true,
        parent: Some(3),
        leader: None,
        hints: None,
        demands_attention: true,
    };
    let rules = Rules { float: None, center: None, fullscreen: Some(true), workspace: None, context: None };
    let screen = Region { pos: Pos { x: 0, y: 0 }, dim: Dim { w: 1000, h: 800 } };
    let plan = plan_manage(9, &info, &rules, 10, 2, screen);
    assert_eq!(plan.workspace, 7);
    assert_eq!(plan.region, Region { pos: Pos { x: 300, y: 250 }, dim: Dim { w: 400, h: 300 } });
    assert!(plan.flags.floating);
    assert_eq!(plan.flags.parent, Some(3));
    assert!(plan.fullscreen);
    assert!(plan.sticky);
    assert!(plan.demands_attention);

    let placed = ManageInfo {
        geometry: Region { pos: Pos { x: 10, y: 20 }, dim: Dim { w: 400, h: 300 } },
        at_origin: false,
        by_user: Some(true),
        desktop: Some(12),
        parent: None,
        ..info
    };
    let plan = plan_manage(9, &placed, &Rules { fullscreen: None, ..rules }, 10, 2, screen);
    assert_eq!(plan.workspace, 2);
    assert_eq!(plan.region, placed.geometry);
    assert!(!plan.flags.floating);
    assert!(!plan.fullscreen);
}
