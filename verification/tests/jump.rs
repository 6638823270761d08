use std::collections::HashMap;
use wzrd::client::Client;
use wzrd::compare::MatchMethod;
use wzrd::dispatch::jump_choice;
use wzrd::dispatch::mouse_focus;
use wzrd::dispatch::JumpCriterium;
use wzrd::dispatch::MouseRoute;
use wzrd::change::Toggle;
use wzrd::winsys::window::WindowType;

fn client(window: u32, name: &str, class: &str) -> Client {
    Client::new(
        window,
        window,
        window + 100,
        name.to_string(),
        class.to_string(),
        class.to_string(),
        WindowType::Normal,
        None,
        None,
    )
}

fn clients() -> HashMap<u32, Client> {
    let mut map = HashMap::new();
    map.insert(1, client(1, "Mozilla Firefox", "firefox"));
    map.insert(2, client(2, "Firefox Nightly", "firefox"));
    map.insert(3, client(3, "terminal", "st"));
    map
}

#[test]
fn jumps_go_to_the_matching_client_focused_last() {
    let map = clients();
    let candidates = vec![(1, 30u64), (2, 20u64), (3, 50u64)];
    let by_class = JumpCriterium::ByClass(MatchMethod::Equals("firefox"));
    assert_eq!(jump_choice(&by_class, &map, &candidates), Some(1));
    let later = vec![(1, 30u64), (2, 40u64), (3, 50u64)];
    assert_eq!(jump_choice(&by_class, &map, &later), Some(2));
    let by_name = JumpCriterium::ByName(MatchMethod::Contains("Nightly"));
    assert_eq!(jump_choice(&by_name, &map, &candidates), Some(2));
    let by_instance = JumpCriterium::ByInstance(MatchMethod::Equals("xterm"));
    assert_eq!(jump_choice(&by_instance, &map, &candidates), None);
    // Of clients focused at the same time, the last one walked wins.
    let tied = vec![(2, 30u64), (1, 30u64)];
    assert_eq!(jump_choice(&by_class, &map, &tied), Some(1));
}

#[test]
fn unmanaged_clients_are_not_jumped_to() {
    let mut map = clients();
    map.get_mut(&1).unwrap().set_managed(Toggle::Off);
    let candidates = vec![(1, 30u64), (2, 20u64)];
    let by_class = JumpCriterium::ByClass(MatchMethod::Equals("firefox"));
    assert_eq!(jump_choice(&by_class, &map, &candidates), Some(2));
}

#[test]
fn handled_mouse_events_focus_the_window_under_the_pointer() {
    assert_eq!(mouse_focus(MouseRoute::Global, true, Some(4), Some(5)), Some(4));
    assert_eq!(mouse_focus(MouseRoute::Global, false, Some(4), Some(5)), None);
    assert_eq!(mouse_focus(MouseRoute::Client, true, Some(4), Some(4)), None);
    assert_eq!(mouse_focus(MouseRoute::Focus, false, Some(4), Some(5)), Some(4));
    assert_eq!(mouse_focus(MouseRoute::Focus, false, Some(4), None), None);
    assert_eq!(mouse_focus(MouseRoute::Root, true, Some(4), Some(5)), None);
}
