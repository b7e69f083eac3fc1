use crb::buffer::{Buffer, Symbol};
use crb::errors::ErrorKind;
use crb::geometry::{Point, Size};
use crb::mode::{Command, Direction, Mode};
use crb::settings::Settings;
use crb::state::State;
use crb::window::Window;

fn window_on(text: &str, height: i32) -> Window {
    let mut state = State::new();
    let buf = Buffer::load_from_file("notes.txt", text, Settings::new());
    Window::new(buf, Point::new(0, 0), Size::new(20, height), &mut state)
}

fn text_of(w: &Window) -> String {
    w.save().unwrap()
}

fn scratch_window(state: &mut State) -> Window {
    Window::new(Buffer::empty(Settings::new()), Point::new(0, 0), Size::new(8, 4), state)
}

#[test]
fn a_new_window_takes_the_next_index() {
    let mut state = State::new();
    let w1 = scratch_window(&mut state);
    let w2 = Window::new(
        Buffer::empty(Settings::new()),
        Point::new(0, 4),
        Size::new(8, 4),
        &mut state,
    );
    assert_eq!(w1.index(), 1);
    assert_eq!(w2.index(), 2);
    assert_eq!(state.next_window_index, 3);
    assert_eq!(w1.mode(), Mode::Normal);
    assert_eq!(w1.top_line(), 0);
    assert_eq!(w1.count_cursors(), 1);
    assert_eq!(w1.buffer().count_anchors(), 1);
    assert_eq!(w2.topleft(), Point::new(0, 4));
    assert_eq!(w2.size(), Size::new(8, 4));
}

#[test]
fn titles() {
    let mut state = State::new();
    let scratch = scratch_window(&mut state);
    assert_eq!(scratch.title(), " [1] empty buffer");
    let fresh = Window::new(Buffer::new_file("a.rs", Settings::new()), Point::new(0, 0), Size::new(8, 4), &mut state);
    assert_eq!(fresh.title(), " [2] a.rs (new file)");
    let mut loaded = Window::new(
        Buffer::load_from_file("src/b.rs", "x", Settings::new()),
        Point::new(0, 0),
        Size::new(8, 4),
        &mut state,
    );
    assert_eq!(loaded.title(), " [3] src/b.rs");
    loaded.insert('y').unwrap();
    assert_eq!(loaded.title(), "*[3] src/b.rs");
    loaded.mark_saved();
    assert_eq!(loaded.title(), " [3] src/b.rs");
    state.next_window_index = 120;
    let late = scratch_window(&mut state);
    assert_eq!(late.title(), " [120] empty buffer");
    state.next_window_index = -7;
    let odd = scratch_window(&mut state);
    assert_eq!(odd.title(), " [-7] empty buffer");
}

#[test]
fn typing_goes_in_at_the_cursor() {
    let mut w = window_on("", 5);
    w.insert('h').unwrap();
    w.insert('i').unwrap();
    assert_eq!(text_of(&w), "hi\n");
    w.insert('\n').unwrap();
    w.insert_s("there\nyou").unwrap();
    assert_eq!(text_of(&w), "hi\nthere\nyou\n");
    w.insert_s("").unwrap();
    assert_eq!(text_of(&w), "hi\nthere\nyou\n");
    w.delete(Direction::B).unwrap();
    assert_eq!(text_of(&w), "hi\nthere\nyo\n");
    w.move_cursors(&Command::MoveLeft(2)).unwrap();
    w.delete(Direction::F).unwrap();
    assert_eq!(text_of(&w), "hi\nthere\no\n");
    w.clear().unwrap();
    assert_eq!(text_of(&w), "\n");
    w.insert('z').unwrap();
    assert_eq!(text_of(&w), "z\n");
}

#[test]
fn the_window_scrolls_down_to_follow_its_cursor() {
    let mut w = window_on("0\n1\n2\n3\n4\n5\n6\n7\n8\n9", 5);
    w.move_cursors(&Command::MoveDown(2)).unwrap();
    assert_eq!(w.top_line(), 0);
    w.move_cursors(&Command::MoveDown(1)).unwrap();
    assert_eq!(w.top_line(), 0);
    w.move_cursors(&Command::MoveDown(1)).unwrap();
    assert_eq!(w.top_line(), 1);
    w.move_cursors(&Command::MoveDown(4)).unwrap();
    assert_eq!(w.top_line(), 5);
    w.move_cursors(&Command::MoveDown(40)).unwrap();
    assert_eq!(w.top_line(), 6);
    w.move_cursors(&Command::MoveRight(1)).unwrap();
    assert_eq!(w.top_line(), 6);
}

#[test]
fn the_window_scrolls_up_to_follow_its_cursor() {
    let mut w = window_on("0\n1\n2\n3\n4\n5\n6\n7\n8\n9", 5);
    w.scroll(&Command::Scroll(7)).unwrap();
    assert_eq!(w.top_line(), 7);
    w.move_cursors(&Command::MoveDown(3)).unwrap();
    assert_eq!(w.top_line(), 3);
    w.move_cursors(&Command::MoveUp(1)).unwrap();
    assert_eq!(w.top_line(), 2);
    w.move_cursors(&Command::MoveUp(9)).unwrap();
    assert_eq!(w.top_line(), 0);
}

#[test]
fn scrolling_stops_at_the_first_line_and_after_the_last() {
    let mut w = window_on("0\n1\n2", 5);
    w.scroll(&Command::Scroll(2)).unwrap();
    assert_eq!(w.top_line(), 2);
    w.scroll(&Command::Scroll(5)).unwrap();
    assert_eq!(w.top_line(), 3);
    w.scroll(&Command::Scroll(i32::MAX)).unwrap();
    assert_eq!(w.top_line(), 3);
    w.scroll(&Command::Scroll(-1)).unwrap();
    assert_eq!(w.top_line(), 2);
    w.scroll(&Command::Scroll(i32::MIN)).unwrap();
    assert_eq!(w.top_line(), 0);
    w.scroll(&Command::Scroll(0)).unwrap();
    assert_eq!(w.top_line(), 0);
}

#[test]
fn only_scroll_commands_scroll() {
    let mut w = window_on("0\n1\n2", 5);
    w.scroll(&Command::Scroll(1)).unwrap();
    for c in [Command::MoveDown(1), Command::Quit, Command::Digit(2), Command::Unknown] {
        let e = w.scroll(&c).unwrap_err();
        assert_eq!(e.kind, ErrorKind::InvalidScrollCommand);
        assert_eq!(e.description(), "invalid scroll command");
        assert_eq!(w.top_line(), 1);
    }
}

#[test]
fn only_moves_move_the_cursors() {
    let mut w = window_on("0\n1\n2\n3\n4\n5\n6\n7\n8\n9", 3);
    let e = w.move_cursors(&Command::Scroll(4)).unwrap_err();
    assert_eq!(e.kind, ErrorKind::UnsupportedMoveCommand);
    assert_eq!(w.top_line(), 0);
    let e = w.move_cursors(&Command::Insert('x')).unwrap_err();
    assert_eq!(e.kind, ErrorKind::UnsupportedMoveCommand);
    assert_eq!(text_of(&w), "0\n1\n2\n3\n4\n5\n6\n7\n8\n9\n");
}

#[test]
fn the_window_shows_its_buffer_from_the_top_line() {
    let mut w = window_on("ab\ncd\nef", 2);
    w.size = Size::new(3, 2);
    w.scroll(&Command::Scroll(1)).unwrap();
    let cells = w.display();
    let shown: Vec<Symbol> = cells.iter().map(|c| c.symbol).collect();
    assert_eq!(shown.len(), 6);
    assert_eq!(shown[1], Symbol::Char('c'));
    assert_eq!(shown[2], Symbol::Char('d'));
    assert_eq!(shown[4], Symbol::Char('e'));
    assert_eq!(shown[5], Symbol::Char('f'));
    assert_eq!(cells[3].y, 1);
}

#[test]
fn a_window_without_a_file_cannot_be_saved() {
    let mut state = State::new();
    let w = scratch_window(&mut state);
    assert_eq!(w.save().unwrap_err().kind, ErrorKind::NoFilePath);
}

#[test]
fn the_mode_can_be_set() {
    let mut w = window_on("", 3);
    w.set_mode(Mode::Insert);
    assert_eq!(w.mode(), Mode::Insert);
    assert_eq!(w.mode, Mode::Insert);
    w.set_mode(Mode::Normal);
    assert_eq!(w.mode(), Mode::Normal);
}

#[test]
fn every_cursor_types() {
    let mut w = window_on("abc\ndef", 5);
    w.move_cursors(&Command::MoveRight(1)).unwrap();
    let second = w.add_cursor();
    assert_eq!(w.count_cursors(), 2);
    w.buf.move_anchor(&second, &Command::MoveDown(1)).unwrap();
    w.buf.move_anchor(&second, &Command::MoveRight(2)).unwrap();
    w.insert('X').unwrap();
    assert_eq!(text_of(&w), "aXbc\ndeXf\n");
    w.insert_s("12").unwrap();
    assert_eq!(text_of(&w), "aX12bc\ndeX12f\n");
    w.delete(Direction::B).unwrap();
    assert_eq!(text_of(&w), "aX1bc\ndeX1f\n");
    w.move_cursors(&Command::MoveRight(1)).unwrap();
    w.insert('-').unwrap();
    assert_eq!(text_of(&w), "aX1b-c\ndeX1f-\n");
}

#[test]
fn the_last_cursor_leads_the_scrolling() {
    let mut w = window_on("0\n1\n2\n3\n4\n5\n6\n7\n8\n9", 5);
    let second = w.add_cursor();
    w.buf.move_anchor(&second, &Command::MoveDown(6)).unwrap();
    w.move_cursors(&Command::MoveDown(1)).unwrap();
    assert_eq!(w.top_line(), 4);
    assert!(w.buffer().anchor_at(&second, 0, 7));
}

#[test]
fn a_failure_at_one_cursor_stops_the_rest_and_keeps_what_was_done() {
    let mut w = window_on("ab\ncd\nef", 5);
    w.move_cursors(&Command::MoveDown(1)).unwrap();
    let second = w.add_cursor();
    let third = w.add_cursor();
    w.buf.move_anchor(&second, &Command::MoveDown(2)).unwrap();
    w.buf.move_anchor(&third, &Command::MoveDown(1)).unwrap();
    w.buf.move_anchor(&third, &Command::MoveRight(1)).unwrap();
    let e = w.delete(Direction::B).unwrap_err();
    assert_eq!(e.kind, ErrorKind::NoLineAtPosition);
    assert_eq!(text_of(&w), "abcd\nef\n");
    assert!(w.buffer().anchor_at(&second, 0, 2));
    assert!(w.buffer().anchor_at(&third, 3, 0));
}

#[test]
fn a_failure_while_typing_stops_the_typing() {
    let mut w = window_on("abcdef", 5);
    w.move_cursors(&Command::MoveRight(2)).unwrap();
    let second = w.add_cursor();
    w.buf.move_anchor(&second, &Command::MoveRight(5)).unwrap();
    let e = w.insert_s("x\ny").unwrap_err();
    assert_eq!(e.kind, ErrorKind::NoLineAtPosition);
    assert_eq!(text_of(&w), "abx\ncdxef\n");
    assert!(w.buffer().anchor_at(&second, 6, 0));
}
