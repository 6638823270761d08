use wzrd::winsys::hints::normalized_size_hints;
use wzrd::winsys::hints::RawSizeHints;
use wzrd::change::Toggle;
use wzrd::client::Client;
use wzrd::client::OutsideState;
use wzrd::compare::MatchMethod;
use wzrd::decoration::Border;
use wzrd::decoration::ColorScheme;
use wzrd::decoration::Decoration;
use wzrd::decoration::Frame;
use wzrd::identify::Identify;
use wzrd::placement::PlacementClass;
use wzrd::winsys::geometry::Padding;
use wzrd::winsys::geometry::Pos;
use wzrd::winsys::geometry::Region;
use wzrd::winsys::window::WindowType;

fn client() -> Client {
    Client::new(
        3,
        10,
        11,
        "Mozilla Firefox".to_string(),
        "firefox".to_string(),
        "Navigator".to_string(),
        WindowType::Normal,
        Some(100),
        None,
    )
}

#[test]
fn new_client_defaults() {
    let c = client();
    assert_eq!(c.zone(), 3);
    assert_eq!(c.windows(), (10, 11));
    assert_eq!(c.id(), 10);
    assert_eq!(c.name(), "Mozilla Firefox");
    assert_eq!(c.class(), "firefox");
    assert_eq!(c.instance(), "Navigator");
    assert_eq!(c.pid(), Some(100));
    assert_eq!(c.ppid(), None);
    assert!(!c.is_focused() && !c.is_mapped() && c.is_managed());
    assert!(c.is_iconifyable() && c.is_producing() && !c.is_free());
    assert_eq!(c.outside_state(), OutsideState::Unfocused);
    assert_eq!(c.active_region(), Region::new(0, 0, 0, 0));
    assert!(c.managed_since() <= std::time::SystemTime::now());
    assert!(c.last_focused() <= std::time::SystemTime::now());
}

#[test]
fn names_match_in_full_or_in_part() {
    let c = client();
    assert!(c.name_matches(MatchMethod::Contains("Firefox")));
    assert!(c.name_matches(MatchMethod::Contains("")));
    assert!(!c.name_matches(MatchMethod::Contains("Chrome")));
    assert!(c.class_matches(MatchMethod::Equals("firefox")));
    assert!(!c.class_matches(MatchMethod::Equals("fire")));
    assert!(c.instance_matches(MatchMethod::Contains("gator")));
    assert!(!c.instance_matches(MatchMethod::Contains("Navigators")));
}

#[test]
fn focus_and_outside_state() {
    let mut c = client();
    c.set_focused(Toggle::On);
    assert!(c.is_focused());
    assert_eq!(c.outside_state(), OutsideState::Focused);
    c.set_focused(Toggle::On);
    assert_eq!(c.outside_state(), OutsideState::Focused);
    c.set_sticky(Toggle::On);
    assert_eq!(c.outside_state(), OutsideState::FocusedSticky);
    c.set_focused(Toggle::Reverse);
    assert_eq!(c.outside_state(), OutsideState::UnfocusedSticky);
    c.set_sticky(Toggle::Off);
    assert_eq!(c.outside_state(), OutsideState::Unfocused);
    c.set_disowned(Toggle::On);
    assert_eq!(c.outside_state(), OutsideState::UnfocusedDisowned);
    assert!(c.is_free());
    c.set_disowned(Toggle::Reverse);
    assert_eq!(c.outside_state(), OutsideState::Unfocused);
    c.set_urgent(Toggle::On);
    assert!(c.is_urgent());
    assert_eq!(c.outside_state(), OutsideState::Urgent);
    c.set_urgent(Toggle::Off);
    assert_eq!(c.outside_state(), OutsideState::Urgent);
}

#[test]
fn free_clients() {
    let mut c = client();
    c.set_floating(Toggle::On);
    assert!(c.is_free());
    c.set_fullscreen(Toggle::On);
    assert!(!c.is_free());
    c.set_contained(Toggle::On);
    assert!(c.is_free());
    c.set_floating(Toggle::Off);
    assert!(!c.is_free());
    c.set_managed(Toggle::Off);
    assert!(c.is_free());
}

#[test]
fn regions_and_frame() {
    let mut c = client();
    let colors = ColorScheme::default_scheme();
    c.set_decoration(Decoration {
        border: None,
        frame: Some(Frame { extents: Padding { left: 3, right: 1, top: 2, bottom: 1 }, colors }),
    });
    c.set_region(PlacementClass::Free(Region::new(10, 10, 200, 100)));
    assert_eq!(c.free_region(), Region::new(10, 10, 200, 100));
    assert_eq!(c.active_region(), Region::new(10, 10, 200, 100));
    assert_eq!(c.inner_region(), Region::new(3, 2, 196, 97));
    c.set_region(PlacementClass::Tile(Region::new(0, 0, 50, 50)));
    assert_eq!(c.tile_region(), Region::new(0, 0, 50, 50));
    assert_eq!(c.previous_region(), Region::new(10, 10, 200, 100));
    assert_eq!(c.frame_extents(), Padding { left: 3, right: 1, top: 2, bottom: 1 });
    c.set_decoration(Decoration::no_decoration());
    c.set_region(PlacementClass::Tile(Region::new(5, 5, 40, 30)));
    assert_eq!(c.inner_region(), Region::new(0, 0, 40, 30));
}

#[test]
fn decoration_colors_follow_state() {
    let mut c = client();
    let colors = ColorScheme::default_scheme();
    c.set_decoration(Decoration {
        border: Some(Border { width: 2, colors }),
        frame: Some(Frame { extents: Padding::with_each_edge(1), colors }),
    });
    assert_eq!(c.decoration_colors(), (Some((2, colors.regular)), Some(colors.regular)));
    c.set_focused(Toggle::On);
    assert_eq!(c.decoration_colors(), (Some((2, colors.focused)), Some(colors.focused)));
    c.set_urgent(Toggle::On);
    assert_eq!(c.decoration_colors(), (Some((2, colors.urgent)), Some(colors.urgent)));
}

#[test]
fn relations_between_windows() {
    let mut c = client();
    c.add_child(1);
    c.add_child(2);
    c.add_child(1);
    c.remove_child(1);
    c.remove_child(9);
    c.set_parent(4);
    c.set_leader(5);
    assert_eq!(c.parent(), Some(4));
    assert_eq!(c.leader(), Some(5));
    c.add_consumer(7);
    c.add_consumer(8);
    c.remove_consumer(7);
    assert_eq!(c.consumer_len(), 1);
    assert!(!c.is_consuming());
    c.set_producer(6);
    assert!(c.is_consuming());
    assert_eq!(c.producer(), Some(6));
    c.unset_producer();
    assert_eq!(c.producer(), None);
    c.set_warp_pos(Pos { x: 1, y: 2 });
    assert_eq!(c.warp_pos(), Some(Pos { x: 1, y: 2 }));
    c.unset_warp_pos();
    assert_eq!(c.warp_pos(), None);
}

#[test]
fn expected_unmaps_are_counted() {
    let mut c = client();
    assert!(!c.is_expecting_unmap());
    c.expect_unmap();
    c.expect_unmap();
    assert!(c.consume_unmap_if_expecting());
    assert!(c.is_expecting_unmap());
    assert!(c.consume_unmap_if_expecting());
    assert!(!c.consume_unmap_if_expecting());
}

#[test]
fn settings_and_equality() {
    let mut c = client();
    c.set_name("other".to_string());
    c.set_class("cls".to_string());
    c.set_instance("inst".to_string());
    c.set_context(2);
    c.set_workspace(4);
    assert_eq!((c.context(), c.workspace()), (2, 4));
    assert_eq!(c.window_type(), WindowType::Normal);
    c.set_invincible(Toggle::On);
    c.set_iconified(Toggle::On);
    c.set_iconifyable(Toggle::Off);
    c.set_producing(Toggle::Off);
    c.set_mapped(Toggle::Reverse);
    assert!(c.is_invincible() && c.is_iconified() && !c.is_iconifyable() && !c.is_producing());
    assert!(c.is_mapped() && !c.is_sticky() && !c.is_disowned());
    assert!(!c.is_fullscreen() && !c.is_contained() && !c.is_floating());
    assert!(c == client());
    assert_eq!(c.frame(), 11);
    assert_eq!(c.window(), 10);
    assert_eq!(c.decoration(), Decoration::no_decoration());
}

#[test]
fn size_hints_are_recorded() {
    let mut c = client();
    assert_eq!(c.size_hints(), None);
    let raw = RawSizeHints {
        position: None,
        min_size: Some((30, 40)),
        max_size: None,
        base_size: None,
        size_increment: None,
        aspect: None,
    };
    let limits = normalized_size_hints(raw, None);
    c.set_size_hints(Some(limits));
    assert_eq!(c.size_hints(), Some(limits));
    c.set_size_hints(None);
    assert_eq!(c.size_hints(), None);
}
