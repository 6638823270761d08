use wzrd::winsys::keymap::read_keymap;

fn names(v: &[Vec<char>]) -> Vec<String> {
    v.iter().map(|n| n.iter().collect()).collect()
}

#[test]
fn keymap_lines_give_codes_and_names() {
    let text = "keycode  38 = a A a A\nkeycode  50 = Shift_L NoSymbol\r\nkeycode   8 =\n";
    let entries = read_keymap(text).unwrap();
    assert_eq!(entries.len(), 3);
    assert_eq!(entries[0].0, 38);
    assert_eq!(names(&entries[0].1), vec!["a", "A", "a", "A"]);
    assert_eq!(entries[1].0, 50);
    assert_eq!(names(&entries[1].1), vec!["Shift_L", "NoSymbol"]);
    assert_eq!(entries[2].0, 8);
    assert!(entries[2].1.is_empty());
}

#[test]
fn keymap_without_final_newline_and_spacing() {
    let entries = read_keymap("keycode\t+9 = Escape").unwrap();
    assert_eq!(entries.len(), 1);
    assert_eq!(entries[0].0, 9);
    assert_eq!(names(&entries[0].1), vec!["Escape"]);
    assert_eq!(read_keymap("").unwrap().len(), 0);
}

#[test]
fn unreadable_keymap_lines() {
    assert!(read_keymap("keycode 300 = a").is_none());
    assert!(read_keymap("keycode\n").is_none());
    assert!(read_keymap("keycode 38 = a\n\nkeycode 39 = b").is_none());
    assert!(read_keymap("keycode x = a").is_none());
}
