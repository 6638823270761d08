use wzrd::client::Client;
use wzrd::registry::ClientRegistry;
use wzrd::winsys::window::WindowType;

fn client(window: u32, frame: u32) -> Client {
    Client::new(
        1,
        window,
        frame,
        "name".to_string(),
        "class".to_string(),
        "instance".to_string(),
        WindowType::Normal,
        Some(4242),
        None,
    )
}

#[test]
fn registered_clients_are_found_by_window_frame_and_process() {
    let mut registry = ClientRegistry::new();
    registry.register(client(10, 110), Some(4242));
    registry.register(client(20, 120), None);
    assert_eq!(registry.client(10).map(|c| c.frame()), Some(110));
    assert_eq!(registry.window_of_frame(120), Some(20));
    assert_eq!(registry.frame_of_window(20), Some(120));
    assert_eq!(registry.window_of_pid(4242), Some(10));
    assert!(registry.client(30).is_none());
}

#[test]
fn unregistering_forgets_window_and_frame() {
    let mut registry = ClientRegistry::new();
    registry.register(client(10, 110), Some(4242));
    let removed = registry.unregister(10);
    assert_eq!(removed.map(|c| c.window()), Some(10));
    assert!(registry.client(10).is_none());
    assert_eq!(registry.window_of_frame(110), None);
    assert_eq!(registry.frame_of_window(10), None);
    // The process entry is keyed by the process, so it stays.
    assert_eq!(registry.window_of_pid(4242), Some(10));
    assert!(registry.unregister(10).is_none());
}
