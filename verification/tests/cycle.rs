use wzrd::cycle::Cycle;
use wzrd::cycle::Selector;

#[test]
fn removing_element_before_focus() {
    let mut cycle = Cycle::new(vec![0, 10, 20, 30, 40, 50, 60], false);

    assert_eq!(cycle.active_index(), 6);

    cycle.remove_for(&Selector::AtIndex(2));

    assert_eq!(cycle.active_index(), 5);
    assert_eq!(cycle.id_to_index(0), Some(0));
    assert_eq!(cycle.id_to_index(10), Some(1));
    assert_eq!(cycle.id_to_index(20), None);
    assert_eq!(cycle.id_to_index(30), Some(2));
    assert_eq!(cycle.id_to_index(40), Some(3));
    assert_eq!(cycle.id_to_index(50), Some(4));
    assert_eq!(cycle.id_to_index(60), Some(5));

    cycle.remove_for(&Selector::AtIndex(2));

    assert_eq!(cycle.active_index(), 4);
    assert_eq!(cycle.id_to_index(0), Some(0));
    assert_eq!(cycle.id_to_index(10), Some(1));
    assert_eq!(cycle.id_to_index(20), None);
    assert_eq!(cycle.id_to_index(30), None);
    assert_eq!(cycle.id_to_index(40), Some(2));
    assert_eq!(cycle.id_to_index(50), Some(3));
    assert_eq!(cycle.id_to_index(60), Some(4));

    cycle.remove_for(&Selector::AtIndex(2));

    assert_eq!(cycle.active_index(), 3);
    assert_eq!(cycle.id_to_index(0), Some(0));
    assert_eq!(cycle.id_to_index(10), Some(1));
    assert_eq!(cycle.id_to_index(20), None);
    assert_eq!(cycle.id_to_index(30), None);
    assert_eq!(cycle.id_to_index(40), None);
    assert_eq!(cycle.id_to_index(50), Some(2));
    assert_eq!(cycle.id_to_index(60), Some(3));

    cycle.remove_for(&Selector::AtIndex(2));

    assert_eq!(cycle.active_index(), 2);
    assert_eq!(cycle.id_to_index(0), Some(0));
    assert_eq!(cycle.id_to_index(10), Some(1));
    assert_eq!(cycle.id_to_index(20), None);
    assert_eq!(cycle.id_to_index(30), None);
    assert_eq!(cycle.id_to_index(40), None);
    assert_eq!(cycle.id_to_index(50), None);
    assert_eq!(cycle.id_to_index(60), Some(2));

    cycle.remove_for(&Selector::AtIndex(2));

    assert_eq!(cycle.active_index(), 1);
    assert_eq!(cycle.id_to_index(0), Some(0));
    assert_eq!(cycle.id_to_index(10), Some(1));
    assert_eq!(cycle.id_to_index(20), None);
    assert_eq!(cycle.id_to_index(30), None);
    assert_eq!(cycle.id_to_index(40), None);
    assert_eq!(cycle.id_to_index(50), None);
    assert_eq!(cycle.id_to_index(60), None);

    cycle.remove_for(&Selector::AtIndex(2));

    assert_eq!(cycle.active_index(), 1);
    assert_eq!(cycle.id_to_index(0), Some(0));
    assert_eq!(cycle.id_to_index(10), Some(1));
    assert_eq!(cycle.id_to_index(20), None);
    assert_eq!(cycle.id_to_index(30), None);
    assert_eq!(cycle.id_to_index(40), None);
    assert_eq!(cycle.id_to_index(50), None);
    assert_eq!(cycle.id_to_index(60), None);

    cycle.remove_for(&Selector::AtIndex(1));

    assert_eq!(cycle.active_index(), 0);
    assert_eq!(cycle.id_to_index(0), Some(0));
    assert_eq!(cycle.id_to_index(10), None);
    assert_eq!(cycle.id_to_index(20), None);
    assert_eq!(cycle.id_to_index(30), None);
    assert_eq!(cycle.id_to_index(40), None);
    assert_eq!(cycle.id_to_index(50), None);
    assert_eq!(cycle.id_to_index(60), None);

    cycle.remove_for(&Selector::AtIndex(0));

    assert_eq!(cycle.active_index(), 0);
    assert_eq!(cycle.id_to_index(0), None);
    assert_eq!(cycle.id_to_index(10), None);
    assert_eq!(cycle.id_to_index(20), None);
    assert_eq!(cycle.id_to_index(30), None);
    assert_eq!(cycle.id_to_index(40), None);
    assert_eq!(cycle.id_to_index(50), None);
    assert_eq!(cycle.id_to_index(60), None);
}

#[test]
fn removing_last_element_at_focus() {
    let mut cycle = Cycle::new(vec![0, 10, 20, 30, 40, 50, 60], false);

    assert_eq!(cycle.active_index(), 6);

    cycle.remove_for(&Selector::AtIndex(6));

    assert_eq!(cycle.active_index(), 5);
    assert_eq!(cycle.id_to_index(0), Some(0));
    assert_eq!(cycle.id_to_index(10), Some(1));
    assert_eq!(cycle.id_to_index(20), Some(2));
    assert_eq!(cycle.id_to_index(30), Some(3));
    assert_eq!(cycle.id_to_index(40), Some(4));
    assert_eq!(cycle.id_to_index(50), Some(5));
    assert_eq!(cycle.id_to_index(60), None);

    cycle.remove_for(&Selector::AtIndex(6));

    assert_eq!(cycle.active_index(), 5);
    assert_eq!(cycle.id_to_index(0), Some(0));
    assert_eq!(cycle.id_to_index(10), Some(1));
    assert_eq!(cycle.id_to_index(20), Some(2));
    assert_eq!(cycle.id_to_index(30), Some(3));
    assert_eq!(cycle.id_to_index(40), Some(4));
    assert_eq!(cycle.id_to_index(50), Some(5));
    assert_eq!(cycle.id_to_index(60), None);

    cycle.remove_for(&Selector::AtIndex(5));

    assert_eq!(cycle.active_index(), 4);
    assert_eq!(cycle.id_to_index(0), Some(0));
    assert_eq!(cycle.id_to_index(10), Some(1));
    assert_eq!(cycle.id_to_index(20), Some(2));
    assert_eq!(cycle.id_to_index(30), Some(3));
    assert_eq!(cycle.id_to_index(40), Some(4));
    assert_eq!(cycle.id_to_index(50), None);
    assert_eq!(cycle.id_to_index(60), None);

    cycle.remove_for(&Selector::AtIndex(4));

    assert_eq!(cycle.active_index(), 3);
    assert_eq!(cycle.id_to_index(0), Some(0));
    assert_eq!(cycle.id_to_index(10), Some(1));
    assert_eq!(cycle.id_to_index(20), Some(2));
    assert_eq!(cycle.id_to_index(30), Some(3));
    assert_eq!(cycle.id_to_index(40), None);
    assert_eq!(cycle.id_to_index(50), None);
    assert_eq!(cycle.id_to_index(60), None);

    cycle.remove_for(&Selector::AtIndex(3));

    assert_eq!(cycle.active_index(), 2);
    assert_eq!(cycle.id_to_index(0), Some(0));
    assert_eq!(cycle.id_to_index(10), Some(1));
    assert_eq!(cycle.id_to_index(20), Some(2));
    assert_eq!(cycle.id_to_index(30), None);
    assert_eq!(cycle.id_to_index(40), None);
    assert_eq!(cycle.id_to_index(50), None);
    assert_eq!(cycle.id_to_index(60), None);

    cycle.remove_for(&Selector::AtIndex(2));

    assert_eq!(cycle.active_index(), 1);
    assert_eq!(cycle.id_to_index(0), Some(0));
    assert_eq!(cycle.id_to_index(10), Some(1));
    assert_eq!(cycle.id_to_index(20), None);
    assert_eq!(cycle.id_to_index(30), None);
    assert_eq!(cycle.id_to_index(40), None);
    assert_eq!(cycle.id_to_index(50), None);
    assert_eq!(cycle.id_to_index(60), None);

    cycle.remove_for(&Selector::AtIndex(1));

    assert_eq!(cycle.active_index(), 0);
    assert_eq!(cycle.id_to_index(0), Some(0));
    assert_eq!(cycle.id_to_index(10), None);
    assert_eq!(cycle.id_to_index(20), None);
    assert_eq!(cycle.id_to_index(30), None);
    assert_eq!(cycle.id_to_index(40), None);
    assert_eq!(cycle.id_to_index(50), None);
    assert_eq!(cycle.id_to_index(60), None);

    cycle.remove_for(&Selector::AtIndex(0));

    assert_eq!(cycle.active_index(), 0);
    assert_eq!(cycle.id_to_index(0), None);
    assert_eq!(cycle.id_to_index(10), None);
    assert_eq!(cycle.id_to_index(20), None);
    assert_eq!(cycle.id_to_index(30), None);
    assert_eq!(cycle.id_to_index(40), None);
    assert_eq!(cycle.id_to_index(50), None);
    assert_eq!(cycle.id_to_index(60), None);

    cycle.remove_for(&Selector::AtIndex(0));

    assert_eq!(cycle.active_index(), 0);
    assert_eq!(cycle.id_to_index(0), None);
    assert_eq!(cycle.id_to_index(10), None);
    assert_eq!(cycle.id_to_index(20), None);
    assert_eq!(cycle.id_to_index(30), None);
    assert_eq!(cycle.id_to_index(40), None);
    assert_eq!(cycle.id_to_index(50), None);
    assert_eq!(cycle.id_to_index(60), None);
}

#[test]
fn removing_first_element_at_focus() {
    let mut cycle = Cycle::new(vec![0, 10, 20, 30, 40, 50, 60], false);

    assert_eq!(cycle.active_index(), 6);
    cycle.activate_for(&Selector::AtIndex(0));
    assert_eq!(cycle.active_index(), 0);

    cycle.remove_for(&Selector::AtIndex(0));

    assert_eq!(cycle.active_index(), 5);
    assert_eq!(cycle.id_to_index(0), None);
    assert_eq!(cycle.id_to_index(10), Some(0));
    assert_eq!(cycle.id_to_index(20), Some(1));
    assert_eq!(cycle.id_to_index(30), Some(2));
    assert_eq!(cycle.id_to_index(40), Some(3));
    assert_eq!(cycle.id_to_index(50), Some(4));
    assert_eq!(cycle.id_to_index(60), Some(5));

    cycle.activate_for(&Selector::AtIndex(0));
    assert_eq!(cycle.active_index(), 0);

    cycle.remove_for(&Selector::AtIndex(0));

    assert_eq!(cycle.active_index(), 4);
    assert_eq!(cycle.id_to_index(0), None);
    assert_eq!(cycle.id_to_index(10), None);
    assert_eq!(cycle.id_to_index(20), Some(0));
    assert_eq!(cycle.id_to_index(30), Some(1));
    assert_eq!(cycle.id_to_index(40), Some(2));
    assert_eq!(cycle.id_to_index(50), Some(3));
    assert_eq!(cycle.id_to_index(60), Some(4));

    cycle.activate_for(&Selector::AtIndex(0));
    assert_eq!(cycle.active_index(), 0);

    cycle.remove_for(&Selector::AtIndex(0));

    assert_eq!(cycle.active_index(), 3);
    assert_eq!(cycle.id_to_index(0), None);
    assert_eq!(cycle.id_to_index(10), None);
    assert_eq!(cycle.id_to_index(20), None);
    assert_eq!(cycle.id_to_index(30), Some(0));
    assert_eq!(cycle.id_to_index(40), Some(1));
    assert_eq!(cycle.id_to_index(50), Some(2));
    assert_eq!(cycle.id_to_index(60), Some(3));

    cycle.activate_for(&Selector::AtIndex(0));
    assert_eq!(cycle.active_index(), 0);

    cycle.remove_for(&Selector::AtIndex(0));

    assert_eq!(cycle.active_index(), 2);
    assert_eq!(cycle.id_to_index(0), None);
    assert_eq!(cycle.id_to_index(10), None);
    assert_eq!(cycle.id_to_index(20), None);
    assert_eq!(cycle.id_to_index(30), None);
    assert_eq!(cycle.id_to_index(40), Some(0));
    assert_eq!(cycle.id_to_index(50), Some(1));
    assert_eq!(cycle.id_to_index(60), Some(2));

    cycle.activate_for(&Selector::AtIndex(0));
    assert_eq!(cycle.active_index(), 0);

    cycle.remove_for(&Selector::AtIndex(0));

    assert_eq!(cycle.active_index(), 1);
    assert_eq!(cycle.id_to_index(0), None);
    assert_eq!(cycle.id_to_index(10), None);
    assert_eq!(cycle.id_to_index(20), None);
    assert_eq!(cycle.id_to_index(30), None);
    assert_eq!(cycle.id_to_index(40), None);
    assert_eq!(cycle.id_to_index(50), Some(0));
    assert_eq!(cycle.id_to_index(60), Some(1));

    cycle.activate_for(&Selector::AtIndex(0));
    assert_eq!(cycle.active_index(), 0);

    cycle.remove_for(&Selector::AtIndex(0));

    assert_eq!(cycle.active_index(), 0);
    assert_eq!(cycle.id_to_index(0), None);
    assert_eq!(cycle.id_to_index(10), None);
    assert_eq!(cycle.id_to_index(20), None);
    assert_eq!(cycle.id_to_index(30), None);
    assert_eq!(cycle.id_to_index(40), None);
    assert_eq!(cycle.id_to_index(50), None);
    assert_eq!(cycle.id_to_index(60), Some(0));

    cycle.activate_for(&Selector::AtIndex(0));
    assert_eq!(cycle.active_index(), 0);

    cycle.remove_for(&Selector::AtIndex(0));

    assert_eq!(cycle.active_index(), 0);
    assert_eq!(cycle.id_to_index(0), None);
    assert_eq!(cycle.id_to_index(10), None);
    assert_eq!(cycle.id_to_index(20), None);
    assert_eq!(cycle.id_to_index(30), None);
    assert_eq!(cycle.id_to_index(40), None);
    assert_eq!(cycle.id_to_index(50), None);
    assert_eq!(cycle.id_to_index(60), None);

    cycle.activate_for(&Selector::AtIndex(0));
    assert_eq!(cycle.active_index(), 0);

    cycle.remove_for(&Selector::AtIndex(0));

    assert_eq!(cycle.active_index(), 0);
    assert_eq!(cycle.id_to_index(0), None);
    assert_eq!(cycle.id_to_index(10), None);
    assert_eq!(cycle.id_to_index(20), None);
    assert_eq!(cycle.id_to_index(30), None);
    assert_eq!(cycle.id_to_index(40), None);
    assert_eq!(cycle.id_to_index(50), None);
    assert_eq!(cycle.id_to_index(60), None);
}
