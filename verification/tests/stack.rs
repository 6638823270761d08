use wzrd::stack::StackLayer;
use wzrd::stack::StackManager;

#[test]
fn windows_stack_in_their_layers() {
    let mut stack = StackManager::new();
    stack.add_window(1, StackLayer::Dock);
    stack.add_window(2, StackLayer::Dock);
    stack.add_window(3, StackLayer::Above);
    stack.add_window(1, StackLayer::Above);
    assert_eq!(stack.layer_windows(StackLayer::Dock), vec![1, 2]);
    assert_eq!(stack.layer_windows(StackLayer::Above), vec![3]);
    assert_eq!(stack.layer_windows(StackLayer::Desktop), Vec::<u32>::new());
}

#[test]
fn raising_and_relayering() {
    let mut stack = StackManager::new();
    stack.add_window(1, StackLayer::Notification);
    stack.add_window(2, StackLayer::Notification);
    stack.add_window(3, StackLayer::Notification);
    stack.raise_window(1);
    assert_eq!(stack.layer_windows(StackLayer::Notification), vec![2, 3, 1]);
    stack.raise_window(9);
    assert_eq!(stack.layer_windows(StackLayer::Notification), vec![2, 3, 1]);
    stack.relayer_window(3, StackLayer::Below);
    assert_eq!(stack.layer_windows(StackLayer::Notification), vec![2, 1]);
    assert_eq!(stack.layer_windows(StackLayer::Below), vec![3]);
    stack.remove_window(2);
    assert_eq!(stack.layer_windows(StackLayer::Notification), vec![1]);
}

#[test]
fn above_and_below_siblings() {
    let mut stack = StackManager::new();
    stack.add_above_other(1, 2);
    stack.add_above_other(1, 3);
    stack.add_below_other(4, 5);
    assert_eq!(stack.above_other().get(&1), Some(&2));
    assert_eq!(stack.below_other().get(&4), Some(&5));
    stack.remove_window(1);
    assert_eq!(stack.above_other().get(&1), None);
    assert_eq!(stack.below_other().len(), 1);
}

use wzrd::stack::restack_from;
use wzrd::stack::stacking_order;
use wzrd::stack::StackEntry;

fn entry(frame: u32, fullscreen: bool, free: bool) -> StackEntry {
    StackEntry { frame, fullscreen, free }
}

#[test]
fn stacking_order_by_layer_and_kind() {
    let mut stack = StackManager::new();
    stack.add_window(1, StackLayer::Desktop);
    stack.add_window(2, StackLayer::Dock);
    stack.add_window(3, StackLayer::Notification);
    stack.add_window(4, StackLayer::Above);
    let entries = vec![entry(10, false, true), entry(11, true, false), entry(12, false, false)];
    assert_eq!(stacking_order(&stack, &entries, &vec![], &vec![]), vec![1, 2, 12, 11, 10, 4, 3]);
    assert_eq!(
        stacking_order(&stack, &entries, &vec![(12, 4)], &vec![(2, 11)]),
        vec![1, 2, 11, 10, 4, 12, 3]
    );
    assert_eq!(stacking_order(&stack, &entries, &vec![(12, 99)], &vec![]), vec![1, 2, 11, 10, 4, 3]);
}

#[test]
fn restacking_starts_at_first_change() {
    assert_eq!(restack_from(&vec![1, 2, 3], &vec![1, 2, 3]), None);
    assert_eq!(restack_from(&vec![1, 2, 3], &vec![9, 2, 3]), None);
    assert_eq!(restack_from(&vec![1, 2, 3], &vec![1, 3, 2]), Some(1));
    assert_eq!(restack_from(&vec![1, 2, 3], &vec![1, 2]), Some(2));
    assert_eq!(restack_from(&vec![1], &vec![]), None);
}

#[test]
fn client_lists_follow_management_and_stacking() {
    let list = wzrd::stack::client_list(&vec![(7, 30u64), (3, 10u64), (9, 30u64), (4, 20u64)]);
    assert_eq!(list, vec![3, 4, 7, 9]);
    let stacking = wzrd::stack::client_list_stacking(&list, &vec![9, 3]);
    assert_eq!(stacking, vec![4, 7, 9, 3]);
}
