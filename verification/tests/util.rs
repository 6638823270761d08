use wzrd::change::Change;
use wzrd::change::Direction;
use wzrd::util::BuildIdHasher;
use wzrd::util::IdHasher;
use wzrd::util::Util;
use wzrd::winsys::input::Button;
use wzrd::winsys::input::Modifier;

#[test]
fn index_arithmetic() {
    assert_eq!(Util::last_index(0), 0);
    assert_eq!(Util::last_index(5), 4);
    assert_eq!(Util::next_index(5, 4, Direction::Forward), 0);
    assert_eq!(Util::next_index(5, 0, Direction::Backward), 4);
    assert_eq!(Util::next_index(5, 2, Direction::Backward), 1);
}

#[test]
fn changes_stay_within_range() {
    assert_eq!(Util::change_within_range(0, 10, 8, Change::Inc(5)), 10);
    assert_eq!(Util::change_within_range(0, 10, 3, Change::Inc(5)), 8);
    assert_eq!(Util::change_within_range(0, 10, 3, Change::Dec(5)), 0);
    assert_eq!(Util::change_within_range(0, 10, 7, Change::Dec(5)), 2);
}

#[test]
fn mouse_bindings_parse() {
    let s = Util::parse_mouse_binding("M-S-1").unwrap();
    assert_eq!(s.button, Button::Left);
    assert_eq!(s.modifiers, vec![Modifier::Shift, Modifier::Super]);
    let t = Util::parse_mouse_binding("ScrollDown").unwrap();
    assert_eq!(t.button, Button::ScrollDown);
    assert!(t.modifiers.is_empty());
    let u = Util::parse_mouse_binding("Sec-C-Ctrl-9").unwrap();
    assert_eq!(u.button, Button::Forward);
    assert_eq!(u.modifiers, vec![Modifier::Ctrl, Modifier::Ctrl, Modifier::Alt]);
    assert!(Util::try_parse_mouse_binding("M-Q-1").is_none());
    assert!(Util::try_parse_mouse_binding("M-7").is_none());
    assert!(Util::try_parse_mouse_binding("").is_none());
    assert!(Util::try_parse_mouse_binding("M--1").is_none());
}

#[test]
fn id_hasher_folds_bytes() {
    let mut h = IdHasher::new();
    h.write(&[1, 2, 3, 4]);
    assert_eq!(h.finish(), 0x01020304);
    let mut g = BuildIdHasher.build_hasher();
    g.write(&[0xff]);
    g.write(&[0x01]);
    assert_eq!(g.finish(), 0xff01);
    assert_eq!(IdHasher::default().finish(), 0);
}
