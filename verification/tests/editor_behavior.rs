use modal_editor::editor::Editor;
use modal_editor::event::{Event, Mode, Motion, Operator};

fn line_string(e: &Editor, r: usize) -> String {
    e.line(r).iter().collect()
}

fn paste_string(e: &Editor, r: usize) -> String {
    e.paste_line(r).iter().collect()
}

fn write_str(e: &mut Editor, s: &str) {
    for c in s.chars() {
        e.handle_action(Event::Write(c));
    }
}

fn motion(e: &mut Editor, op: Option<Operator>, mult: u8, m: Motion) {
    e.handle_action(Event::Motion { op, mult, motion: Some(m) });
}

#[test]
fn write_two_chars() {
    let mut e = Editor::new();
    assert_eq!(e.line_count(), 1);
    assert_eq!(line_string(&e, 0), "");
    assert_eq!(e.cursor(), (0, 0));
    e.handle_action(Event::Write('h'));
    e.handle_action(Event::Write('i'));
    assert_eq!(e.line_count(), 1);
    assert_eq!(line_string(&e, 0), "hi");
    assert_eq!(e.cursor(), (0, 2));
}

#[test]
fn enter_splits_line() {
    let mut e = Editor::new();
    write_str(&mut e, "hi");
    assert_eq!(e.cursor(), (0, 2));
    e.handle_action(Event::Enter);
    assert_eq!(e.line_count(), 2);
    assert_eq!(line_string(&e, 0), "hi");
    assert_eq!(line_string(&e, 1), "");
    assert_eq!(e.cursor(), (1, 0));
}

#[test]
fn backspace_merges_lines() {
    let mut e = Editor::new();
    write_str(&mut e, "hi");
    e.handle_action(Event::Enter);
    assert_eq!(e.cursor(), (1, 0));
    e.handle_action(Event::BackSpace);
    assert_eq!(e.line_count(), 1);
    assert_eq!(line_string(&e, 0), "hi");
    assert_eq!(e.cursor(), (0, 2));
}

#[test]
fn word_motion_stops_at_space() {
    let mut e = Editor::new();
    write_str(&mut e, "abc def");
    motion(&mut e, None, 1, Motion::Start);
    assert_eq!(e.cursor(), (0, 0));
    motion(&mut e, None, 1, Motion::Word);
    assert_eq!(e.cursor(), (0, 3));
}

#[test]
fn delete_down_removes_first_line() {
    let mut e = Editor::new();
    write_str(&mut e, "abc");
    e.handle_action(Event::Enter);
    write_str(&mut e, "def");
    motion(&mut e, None, 1, Motion::Up);
    motion(&mut e, None, 1, Motion::Start);
    assert_eq!(e.cursor(), (0, 0));
    motion(&mut e, Some(Operator::Delete), 1, Motion::Down);
    assert_eq!(e.line_count(), 1);
    assert_eq!(line_string(&e, 0), "def");
    assert_eq!(e.cursor(), (0, 0));
    // the removed content was "abc" plus its line break
    assert_eq!(e.paste_line_count(), 2);
    assert_eq!(paste_string(&e, 0), "abc");
    assert_eq!(paste_string(&e, 1), "");
}

#[test]
fn change_mode_normal_is_idempotent() {
    let mut e = Editor::new();
    write_str(&mut e, "ab");
    assert_eq!(e.mode(), Mode::Normal);
    e.handle_action(Event::ChangeMode(Mode::Normal));
    assert_eq!(e.mode(), Mode::Normal);
    assert_eq!(e.line_count(), 1);
    assert_eq!(line_string(&e, 0), "ab");
    assert_eq!(e.cursor(), (0, 2));
}

#[test]
fn enter_then_backspace_round_trips() {
    let mut e = Editor::new();
    write_str(&mut e, "wide net");
    motion(&mut e, None, 4, Motion::Left);
    assert_eq!(e.cursor(), (0, 4));
    e.handle_action(Event::Enter);
    assert_eq!(e.line_count(), 2);
    e.handle_action(Event::BackSpace);
    assert_eq!(e.line_count(), 1);
    assert_eq!(line_string(&e, 0), "wide net");
    assert_eq!(e.cursor(), (0, 4));
}

#[test]
fn tab_inserts_four_spaces() {
    let mut e = Editor::new();
    write_str(&mut e, "ab");
    motion(&mut e, None, 1, Motion::Start);
    e.handle_action(Event::Write('\t'));
    assert_eq!(line_string(&e, 0), "    ab");
    assert_eq!(e.cursor(), (0, 4));
}

#[test]
fn unaccepted_character_is_dropped() {
    let mut e = Editor::new();
    e.handle_action(Event::Write('h'));
    e.handle_action(Event::Write('!'));
    e.handle_action(Event::Write('\n'));
    assert_eq!(line_string(&e, 0), "h");
    assert_eq!(e.cursor(), (0, 1));
    e.handle_action(Event::Write(' '));
    assert_eq!(line_string(&e, 0), "h ");
    assert_eq!(e.cursor(), (0, 2));
}

#[test]
fn backspace_at_buffer_start_is_a_no_op() {
    let mut e = Editor::new();
    write_str(&mut e, "x");
    motion(&mut e, None, 1, Motion::Start);
    e.handle_action(Event::BackSpace);
    assert_eq!(e.line_count(), 1);
    assert_eq!(line_string(&e, 0), "x");
    assert_eq!(e.cursor(), (0, 0));
}

#[test]
fn backspace_removes_left_char() {
    let mut e = Editor::new();
    write_str(&mut e, "abc");
    motion(&mut e, None, 1, Motion::Left);
    assert_eq!(e.cursor(), (0, 2));
    e.handle_action(Event::BackSpace);
    assert_eq!(line_string(&e, 0), "ac");
    assert_eq!(e.cursor(), (0, 1));
}

#[test]
fn motions_clamp_at_the_edges() {
    let mut e = Editor::new();
    write_str(&mut e, "abc");
    e.handle_action(Event::Enter);
    write_str(&mut e, "x");
    // cursor (1, 1); moving down past the last line stays there
    motion(&mut e, None, 3, Motion::Down);
    assert_eq!(e.cursor(), (1, 1));
    // moving up clamps the column to the new line only when it is shorter
    motion(&mut e, None, 5, Motion::Up);
    assert_eq!(e.cursor(), (0, 1));
    motion(&mut e, None, 9, Motion::Left);
    assert_eq!(e.cursor(), (0, 0));
    motion(&mut e, None, 9, Motion::Right);
    assert_eq!(e.cursor(), (0, 3));
    motion(&mut e, None, 1, Motion::End);
    assert_eq!(e.cursor(), (0, 3));
}

#[test]
fn up_clamps_column_to_shorter_line() {
    let mut e = Editor::new();
    write_str(&mut e, "a");
    e.handle_action(Event::Enter);
    write_str(&mut e, "long line");
    assert_eq!(e.cursor(), (1, 9));
    motion(&mut e, None, 1, Motion::Up);
    assert_eq!(e.cursor(), (0, 1));
}

#[test]
fn word_motion_repeats_without_crossing_lines() {
    let mut e = Editor::new();
    write_str(&mut e, "ab cd ef");
    motion(&mut e, None, 1, Motion::Start);
    // on a space the word motion stays put, so two repetitions stop at the
    // first space again
    motion(&mut e, None, 2, Motion::Word);
    assert_eq!(e.cursor(), (0, 2));
}

#[test]
fn yank_copies_without_removing() {
    let mut e = Editor::new();
    write_str(&mut e, "abc");
    motion(&mut e, None, 1, Motion::Start);
    motion(&mut e, Some(Operator::Yank), 1, Motion::End);
    assert_eq!(e.line_count(), 1);
    assert_eq!(line_string(&e, 0), "abc");
    // yank leaves the cursor where the motion put it
    assert_eq!(e.cursor(), (0, 3));
    assert_eq!(e.paste_line_count(), 1);
    assert_eq!(paste_string(&e, 0), "abc");
}

#[test]
fn delete_backwards_range_is_normalized() {
    let mut e = Editor::new();
    write_str(&mut e, "abcd");
    assert_eq!(e.cursor(), (0, 4));
    motion(&mut e, Some(Operator::Delete), 2, Motion::Left);
    assert_eq!(line_string(&e, 0), "ab");
    assert_eq!(e.cursor(), (0, 2));
    assert_eq!(e.paste_line_count(), 1);
    assert_eq!(paste_string(&e, 0), "cd");
}

#[test]
fn delete_everything_collapses_to_one_empty_line() {
    let mut e = Editor::new();
    write_str(&mut e, "abc");
    e.handle_action(Event::Enter);
    write_str(&mut e, "def");
    motion(&mut e, None, 9, Motion::Up);
    motion(&mut e, None, 1, Motion::Start);
    motion(&mut e, Some(Operator::Delete), 1, Motion::Down);
    motion(&mut e, Some(Operator::Delete), 1, Motion::End);
    assert_eq!(e.line_count(), 1);
    assert_eq!(line_string(&e, 0), "");
    assert_eq!(e.cursor(), (0, 0));
    assert_eq!(e.paste_line_count(), 1);
    assert_eq!(paste_string(&e, 0), "def");
}

#[test]
fn quit_reports_done_and_changes_nothing() {
    let mut e = Editor::new();
    write_str(&mut e, "ab");
    let done = e.handle_action(Event::Quit);
    assert!(done);
    assert_eq!(line_string(&e, 0), "ab");
    let done2 = e.handle_action(Event::Write('c'));
    assert!(!done2);
}

#[test]
fn window_resize_updates_viewport_only() {
    let mut e = Editor::new();
    write_str(&mut e, "ab");
    e.handle_action(Event::WindowResize(80, 24));
    assert_eq!(e.width(), 80);
    assert_eq!(e.height(), 24);
    assert_eq!(line_string(&e, 0), "ab");
    assert_eq!(e.cursor(), (0, 2));
}

#[test]
fn change_mode_switches_to_insert_and_back() {
    let mut e = Editor::new();
    e.handle_action(Event::ChangeMode(Mode::Insert));
    assert_eq!(e.mode(), Mode::Insert);
    e.handle_action(Event::ChangeMode(Mode::Normal));
    assert_eq!(e.mode(), Mode::Normal);
}
