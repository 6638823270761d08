use std::collections::HashMap;
use wzrd::client::Client;
use wzrd::consume::is_consumer;
use wzrd::consume::spawner_step;
use wzrd::consume::stat_parent_pid;
use wzrd::consume::SpawnerStep;
use wzrd::winsys::window::WindowType;

#[test]
fn parent_pid_from_stat_line() {
    assert_eq!(stat_parent_pid("1234 (bash) S 1000 1234 1234 0"), Some(1000));
    assert_eq!(stat_parent_pid("1 (init) S +0 1 1"), Some(0));
    assert_eq!(stat_parent_pid("1 (init) S"), None);
    assert_eq!(stat_parent_pid("1 (init) S x1 1"), None);
    assert_eq!(stat_parent_pid("1 (init) S 4294967296 1"), None);
    assert_eq!(stat_parent_pid("1 (init) S 4294967295"), Some(4294967295));
    assert_eq!(stat_parent_pid("1 (my prog) S 7 1"), None);
}

#[test]
fn consumers_are_found_through_the_maps() {
    let mut pid_map = HashMap::new();
    let mut client_map = HashMap::new();
    let mut client = Client::new(1, 50, 51, "t".to_string(), "t".to_string(), "t".to_string(), WindowType::Normal, Some(9), None);
    pid_map.insert(9, 50);
    assert!(!is_consumer(Some(9), &pid_map, &client_map));
    client.set_producer(60);
    client_map.insert(50, client);
    assert!(is_consumer(Some(9), &pid_map, &client_map));
    assert!(!is_consumer(Some(8), &pid_map, &client_map));
    assert!(!is_consumer(None, &pid_map, &client_map));
}

#[test]
fn spawner_search_steps() {
    assert_eq!(spawner_step(10, 1, 20, Some(30), true), SpawnerStep::Done(Some(30)));
    assert_eq!(spawner_step(10, 1, 20, Some(1), false), SpawnerStep::Done(Some(20)));
    assert_eq!(spawner_step(10, 1, 10, Some(1), false), SpawnerStep::Done(None));
    assert_eq!(spawner_step(10, 1, 20, Some(30), false), SpawnerStep::Next(30));
    assert_eq!(spawner_step(10, 1, 20, None, false), SpawnerStep::Done(None));
}
