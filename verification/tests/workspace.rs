use wzrd::change::Direction;
use wzrd::cycle::InsertPos;
use wzrd::identify::Identify;
use wzrd::winsys::geometry::Corner;
use wzrd::winsys::geometry::Pos;
use wzrd::winsys::geometry::Region;
use wzrd::winsys::input::Grip;
use wzrd::workspace::Buffer;
use wzrd::workspace::BufferKind;
use wzrd::workspace::Workspace;

fn workspace_with(windows: &[u32]) -> Workspace {
    let mut ws = Workspace::new("main".to_string(), 1, 100);
    for &w in windows {
        ws.add_client(w, &InsertPos::Back);
    }
    ws
}

#[test]
fn new_workspace_is_empty() {
    let ws = Workspace::new("web".to_string(), 2, 7);
    assert_eq!(ws.number(), 2);
    assert_eq!(ws.id(), 2);
    assert_eq!(ws.name(), "web");
    assert_eq!(ws.root_zone(), 7);
    assert!(ws.is_empty());
    assert_eq!(ws.len(), 0);
    assert_eq!(ws.focused_client(), None);
    assert_eq!(ws.active_focus_zone(), Some(7));
    assert_eq!(ws.active_spawn_zone(), Some(7));
    assert_eq!(ws.focused_icon(), None);
}

#[test]
fn adding_clients_focuses_them() {
    let ws = workspace_with(&[1, 2, 3]);
    assert_eq!(ws.clients(), vec![1, 2, 3]);
    assert_eq!(ws.focused_client(), Some(3));
    assert!(ws.contains(2));
    assert!(!ws.contains(4));
    assert_eq!(ws.next_client(Direction::Forward), Some(1));
    assert_eq!(ws.next_client(Direction::Backward), Some(2));
    assert_eq!(ws.stack().into_iter().collect::<Vec<u32>>(), vec![1, 2]);
    assert_eq!(ws.stack_after_focus(), vec![1, 2, 3]);
}

#[test]
fn focus_returns_after_removal() {
    let mut ws = workspace_with(&[1, 2, 3]);
    assert_eq!(ws.focus_client(1), Some(3));
    assert_eq!(ws.focused_client(), Some(1));
    assert_eq!(ws.remove_client(1), Some(1));
    assert_eq!(ws.focused_client(), Some(3));
    assert_eq!(ws.remove_client(9), None);
    assert_eq!(ws.remove_focused_client(), Some(3));
    assert_eq!(ws.focused_client(), Some(2));
    assert_eq!(ws.clients(), vec![2]);
}

#[test]
fn replacing_a_client() {
    let mut ws = workspace_with(&[1, 2, 3]);
    ws.replace_client(2, 5);
    assert_eq!(ws.clients(), vec![1, 5, 3]);
    ws.replace_client(1, 3);
    assert_eq!(ws.clients(), vec![3, 5]);
}

#[test]
fn rotating_and_dragging() {
    let mut ws = workspace_with(&[1, 2, 3]);
    assert_eq!(ws.rotate_clients(Direction::Forward), Some((3, 2)));
    assert_eq!(ws.clients(), vec![3, 1, 2]);
    ws.focus_client(3);
    assert_eq!(ws.drag_focus(Direction::Forward), Some(3));
    assert_eq!(ws.clients(), vec![1, 3, 2]);
    assert_eq!(ws.drag_focus(Direction::Backward), Some(3));
    assert_eq!(ws.clients(), vec![3, 1, 2]);
    let mut single = workspace_with(&[4]);
    assert_eq!(single.rotate_clients(Direction::Forward), None);
}

#[test]
fn icons_come_and_go() {
    let mut ws = workspace_with(&[1, 2]);
    ws.client_to_icon(1);
    assert_eq!(ws.clients(), vec![2]);
    assert_eq!(ws.focused_icon(), Some(1));
    ws.add_icon(7);
    assert_eq!(ws.focused_icon(), Some(7));
    ws.icon_to_client(1);
    assert_eq!(ws.clients(), vec![2, 1]);
    assert_eq!(ws.focused_client(), Some(1));
    assert_eq!(ws.remove_icon(7), Some(7));
    assert_eq!(ws.focused_icon(), None);
    ws.icon_to_client(42);
    assert_eq!(ws.clients(), vec![2, 1]);
}

#[test]
fn zones_take_focus() {
    let mut ws = Workspace::new("main".to_string(), 1, 100);
    ws.add_zone(101, &InsertPos::AfterActive);
    assert_eq!(ws.active_focus_zone(), Some(101));
    assert_eq!(ws.activate_zone(100), Some(101));
    assert_eq!(ws.active_focus_zone(), Some(100));
    ws.remove_zone(100);
    assert_eq!(ws.active_focus_zone(), Some(101));
    assert_eq!(ws.active_spawn_zone(), Some(101));
}

#[test]
fn workspaces_compare_by_number() {
    let a = Workspace::new("a".to_string(), 1, 100);
    let b = Workspace::new("b".to_string(), 1, 200);
    let c = Workspace::new("a".to_string(), 2, 100);
    assert!(a == b);
    assert!(a != c);
}

#[test]
fn buffers_track_a_grab() {
    let mut buffer = Buffer::new(BufferKind::Move, 77);
    assert!(!buffer.is_occupied());
    assert_eq!(buffer.handle(), 77);
    let grip = Grip::Corner(Corner::TopLeft);
    buffer.set(5, grip, Pos { x: 1, y: 2 }, Region::new(0, 0, 10, 10));
    assert!(buffer.is_occupied());
    assert_eq!(buffer.window(), Some(5));
    assert_eq!(buffer.grip(), Some(grip));
    assert_eq!(buffer.grip_pos(), Some(Pos { x: 1, y: 2 }));
    buffer.set_grip_pos(Pos { x: 3, y: 4 });
    assert_eq!(buffer.grip_pos(), Some(Pos { x: 3, y: 4 }));
    buffer.set_window_region(Region::new(1, 1, 5, 5));
    assert_eq!(buffer.window_region(), Some(Region::new(1, 1, 5, 5)));
    buffer.unset();
    assert!(!buffer.is_occupied());
    assert_eq!(buffer.grip(), None);
}
