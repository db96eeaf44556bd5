use minitel::edit::Editor;

#[test]
fn insert_and_text() {
    let mut e = Editor::new(40, 4);
    for c in "café".chars() {
        e.insert(c);
    }
    assert_eq!(e.text(), "café");
    assert_eq!(e.cursor_rc(), (0, 4));
}

#[test]
fn wrap_by_width() {
    let mut e = Editor::new(5, 3);
    for c in "abcdefg".chars() {
        e.insert(c);
    }
    assert_eq!(e.lines(), vec!["abcde", "fg"]);
    assert_eq!(e.cursor_rc(), (1, 2));
    assert_eq!(e.last_row(), 1);
}

#[test]
fn backspace_and_arrows() {
    let mut e = Editor::new(10, 2);
    for c in "abcd".chars() {
        e.insert(c);
    }
    e.left();
    e.left();
    assert_eq!(e.cursor_rc(), (0, 2));
    e.backspace();
    assert_eq!(e.text(), "acd");
    assert_eq!(e.cursor_rc(), (0, 1));
    e.insert('X');
    assert_eq!(e.text(), "aXcd");
}

#[test]
fn capacity_full() {
    let mut e = Editor::new(2, 1);
    assert!(e.insert('a'));
    assert!(e.insert('b'));
    assert!(!e.insert('c'));
    assert_eq!(e.text(), "ab");
}

#[test]
fn backspace_undoes_insert_and_vertical_moves() {
    let mut e = Editor::new(3, 3);
    for c in "abcdefg".chars() {
        e.insert(c);
    }
    assert_eq!(e.lines(), vec!["abc", "def", "g"]);
    e.up();
    assert_eq!(e.cursor_rc(), (1, 1));
    assert!(e.insert('Z'));
    assert!(e.backspace());
    assert_eq!(e.text(), "abcdefg");
    assert_eq!(e.cursor_rc(), (1, 1));
    e.down();
    assert_eq!(e.cursor_rc(), (2, 1));
    assert!(e.at_end());
    e.down();
    assert_eq!(e.cursor_rc(), (2, 1));
    e.up();
    e.up();
    e.up();
    assert_eq!(e.cursor_rc(), (0, 0));
    assert!(!e.backspace());
    e.right();
    assert_eq!(e.cursor_col(), 1);
    assert_eq!(e.capacity(), 9);
}

#[test]
fn set_rows_truncates_and_clear_empties() {
    let mut e = Editor::new(4, 3);
    for c in "abcdefghij".chars() {
        e.insert(c);
    }
    e.set_rows(2);
    assert_eq!(e.text(), "abcdefgh");
    assert!(e.at_end());
    e.set_rows(0);
    assert_eq!(e.capacity(), 4);
    assert_eq!(e.text(), "abcd");
    e.clear();
    assert!(e.is_empty());
    assert_eq!(e.lines(), vec![String::new()]);
    assert_eq!(e.last_row(), 0);
}
