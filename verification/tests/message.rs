use wzrd::winsys::event::Event;
use wzrd::winsys::event::ToggleAction;
use wzrd::winsys::geometry::Corner;
use wzrd::winsys::geometry::Dim;
use wzrd::winsys::geometry::Edge;
use wzrd::winsys::geometry::Pos;
use wzrd::winsys::input::Grip;
use wzrd::winsys::message::decode_client_message;
use wzrd::winsys::message::state_of_atom;
use wzrd::winsys::message::RequestAtoms;
use wzrd::winsys::window::WindowState;

const ROOT: u32 = 1;
const WINDOW: u32 = 77;

fn atoms() -> RequestAtoms {
    RequestAtoms {
        net_wm_state: 100,
        net_moveresize_window: 101,
        net_wm_moveresize: 102,
        net_request_frame_extents: 103,
        net_current_desktop: 104,
        net_close_window: 105,
        net_active_window: 106,
    }
}

fn states() -> Vec<(u32, WindowState)> {
    vec![(200, WindowState::Fullscreen), (201, WindowState::Sticky)]
}

fn decode(type_: u32, format: u8, data: Vec<usize>, window: u32) -> Option<Event> {
    decode_client_message(type_, format, &data, window, ROOT, &atoms(), &states())
}

#[test]
fn states_are_looked_up_by_atom() {
    assert_eq!(state_of_atom(&states(), 201), Some(WindowState::Sticky));
    assert_eq!(state_of_atom(&states(), 5), None);
}

#[test]
fn state_requests_name_the_first_known_state() {
    let event = decode(100, 32, vec![1, 0, 200, 0, 0], WINDOW);
    assert!(matches!(
        event,
        Some(Event::StateRequest {
            window: WINDOW,
            state: WindowState::Fullscreen,
            action: ToggleAction::Add,
            on_root: false,
        })
    ));
    let event = decode(100, 32, vec![2, 999, 201, 0, 0], ROOT);
    assert!(matches!(
        event,
        Some(Event::StateRequest {
            state: WindowState::Sticky,
            action: ToggleAction::Toggle,
            on_root: true,
            ..
        })
    ));
    let event = decode(100, 32, vec![0, 201, 200], WINDOW);
    assert!(matches!(
        event,
        Some(Event::StateRequest {
            state: WindowState::Sticky,
            action: ToggleAction::Remove,
            ..
        })
    ));
}

#[test]
fn malformed_state_requests_are_dropped() {
    assert!(decode(100, 8, vec![1, 200, 0], WINDOW).is_none());
    assert!(decode(100, 32, vec![1, 200], WINDOW).is_none());
    assert!(decode(100, 32, vec![3, 200, 0], WINDOW).is_none());
    assert!(decode(100, 32, vec![1, 0, 0], WINDOW).is_none());
}

#[test]
fn placement_requests_carry_position_and_size() {
    let event = decode(101, 32, vec![0, 10, 20, 300, 400], WINDOW);
    match event {
        Some(Event::PlacementRequest { window, pos, dim, on_root }) => {
            assert_eq!(window, WINDOW);
            assert_eq!(pos, Some(Pos { x: 10, y: 20 }));
            assert_eq!(dim, Some(Dim { w: 300, h: 400 }));
            assert!(!on_root);
        },
        _ => panic!("expected a placement request"),
    }
    assert!(decode(101, 32, vec![0, 10, 20, 300], WINDOW).is_none());
}

#[test]
fn grip_requests_name_the_direction() {
    let event = decode(102, 32, vec![5, 6, 4], WINDOW);
    match event {
        Some(Event::GripRequest { pos, grip, .. }) => {
            assert_eq!(pos, Pos { x: 5, y: 6 });
            assert_eq!(grip, Some(Grip::Corner(Corner::BottomRight)));
        },
        _ => panic!("expected a grip request"),
    }
    match decode(102, 32, vec![5, 6, 7], WINDOW) {
        Some(Event::GripRequest { grip, .. }) => assert_eq!(grip, Some(Grip::Edge(Edge::Left))),
        _ => panic!("expected a grip request"),
    }
    match decode(102, 32, vec![5, 6, 8], WINDOW) {
        Some(Event::GripRequest { grip, .. }) => assert_eq!(grip, None),
        _ => panic!("expected a grip request"),
    }
    assert!(decode(102, 32, vec![5, 6, 9], WINDOW).is_none());
    assert!(decode(102, 32, vec![5, 6], WINDOW).is_none());
}

#[test]
fn simple_requests_are_decoded() {
    assert!(matches!(
        decode(103, 32, vec![], WINDOW),
        Some(Event::FrameExtentsRequest { window: WINDOW, on_root: false })
    ));
    assert!(matches!(
        decode(104, 32, vec![3], ROOT),
        Some(Event::WorkspaceRequest { window: None, index: 3, on_root: true })
    ));
    assert!(decode(104, 32, vec![], ROOT).is_none());
    assert!(matches!(
        decode(105, 32, vec![], WINDOW),
        Some(Event::CloseRequest { window: WINDOW, on_root: false })
    ));
    assert!(matches!(
        decode(106, 32, vec![2], WINDOW),
        Some(Event::FocusRequest { window: WINDOW, on_root: false })
    ));
    assert!(decode(106, 32, vec![3], WINDOW).is_none());
    assert!(decode(107, 32, vec![1, 2, 3], WINDOW).is_none());
}
