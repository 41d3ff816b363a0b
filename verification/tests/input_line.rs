use switch::input_line::InputLine;

fn text(il: &InputLine) -> String {
    il.buffer.iter().collect()
}

#[test]
fn cursor_editing() {
    let mut il = InputLine::default();
    il.insert('a');
    il.insert('b');
    il.insert('c');
    assert_eq!(text(&il), "abc");
    assert_eq!(il.cursor_pos(), 3);
    il.cursor_move(-1);
    il.backward_remove_cursor();
    assert_eq!(text(&il), "ac");
    assert_eq!(il.cursor_pos(), 1);
    il.forward_remove_cursor();
    assert_eq!(text(&il), "a");
    il.cursor_begin();
    il.insert_string("xy");
    assert_eq!(text(&il), "xya");
    assert_eq!(il.cursor_pos(), 2);
    il.cursor_end();
    assert_eq!(il.cursor_pos(), 3);
    // Moves past either end are ignored.
    il.cursor_move(5);
    assert_eq!(il.cursor_pos(), 3);
    il.cursor_move(-7);
    assert_eq!(il.cursor_pos(), 3);
    il.clear();
    assert_eq!(il.len(), 0);
    assert_eq!(il.cursor_pos(), 0);
}

#[test]
fn word_movement_and_kill() {
    let mut il = InputLine::default();
    il.reset_buffer("run me -x");
    assert_eq!(il.cursor_pos(), 9);
    assert_eq!(il.backward_find_word(), 8);
    il.backward_kill_word();
    assert_eq!(text(&il), "run me -");

    il.cursor_begin();
    il.forward_word();
    assert_eq!(il.cursor_pos(), 3);
    il.forward_kill_word();
    assert_eq!(text(&il), "run -");
    assert_eq!(il.cursor_pos(), 3);
}

#[test]
fn line_kill() {
    let mut il = InputLine::default();
    il.reset_buffer("hello world");
    il.cursor_move(-6);
    assert_eq!(il.cursor_pos(), 5);
    il.forward_kill_line();
    assert_eq!(text(&il), "hello");

    il.reset_buffer("hello world");
    il.cursor_move(-5);
    il.backward_kill_line();
    assert_eq!(text(&il), "world");
    assert_eq!(il.cursor_pos(), 0);
}
