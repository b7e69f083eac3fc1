use crb::buffer::{Anchor, Buffer};
use crb::errors::ErrorKind;
use crb::mode::{Command, Direction};
use crb::position::Position;
use crb::settings::Settings;

fn lines_of(buf: &Buffer) -> Vec<String> {
    let mut lines = Vec::new();
    let mut i = 0;
    while i < buf.count_lines() {
        lines.push(buf.line(i).unwrap().to_string());
        i += 1;
    }
    lines
}

fn anchor_at(buf: &mut Buffer, line: i32, offset: i32) -> Anchor {
    let a = buf.new_anchor();
    buf.move_anchor(&a, &Command::MoveDown(line)).unwrap();
    buf.move_anchor(&a, &Command::MoveRight(offset)).unwrap();
    assert!(buf.anchor_at(&a, offset, line));
    a
}

#[test]
fn newline_splits_the_line_at_the_anchor() {
    let mut buf = Buffer::load_from_file("f", "abcdef", Settings::new());
    let a = anchor_at(&mut buf, 0, 3);
    buf.insert_text_before(&a, '\n').unwrap();
    assert_eq!(lines_of(&buf), vec!["abc", "def"]);
    assert_eq!(buf.position(&a), Some(Position::new(1, 0)));
}

#[test]
fn backward_delete_at_line_start_merges_lines() {
    let mut buf = Buffer::load_from_file("f", "ab\ncd", Settings::new());
    let a = anchor_at(&mut buf, 1, 0);
    buf.delete_at(&a, &Direction::B).unwrap();
    assert_eq!(lines_of(&buf), vec!["abcd"]);
    assert_eq!(buf.position(&a), Some(Position::new(0, 2)));
}

#[test]
fn backward_delete_shifts_anchors_at_or_after_the_place() {
    let mut buf = Buffer::load_from_file("f", "abcde", Settings::new());
    let a = anchor_at(&mut buf, 0, 4);
    let b = anchor_at(&mut buf, 0, 2);
    buf.delete_at(&a, &Direction::B).unwrap();
    assert_eq!(lines_of(&buf), vec!["abce"]);
    assert_eq!(buf.position(&a), Some(Position::new(0, 3)));
    assert_eq!(buf.position(&b), Some(Position::new(0, 2)));
}

#[test]
fn stale_anchor_is_refused() {
    let mut big = Buffer::empty(Settings::new());
    big.new_anchor();
    let stale = big.new_anchor();
    let mut buf = Buffer::empty(Settings::new());
    buf.new_anchor();
    let e = buf.move_anchor(&stale, &Command::MoveRight(1)).unwrap_err();
    assert_eq!(e.kind, ErrorKind::NoSuchAnchor);
    assert_eq!(e.description(), "no such anchor");
}

#[test]
fn insert_then_backward_delete_restores_text_and_anchor() {
    for c in ['x', '\n', '\t', '\u{e9}'] {
        let mut buf = Buffer::load_from_file("f", "ab\ncdef\ngh", Settings::new());
        let a = anchor_at(&mut buf, 1, 2);
        buf.insert_text_before(&a, c).unwrap();
        assert_ne!(lines_of(&buf), vec!["ab", "cdef", "gh"]);
        buf.delete_at(&a, &Direction::B).unwrap();
        assert_eq!(lines_of(&buf), vec!["ab", "cdef", "gh"]);
        assert_eq!(buf.position(&a), Some(Position::new(1, 2)));
    }
}

#[test]
fn a_character_goes_in_before_the_anchor() {
    let mut buf = Buffer::load_from_file("f", "abcd", Settings::new());
    let a = anchor_at(&mut buf, 0, 2);
    let b = anchor_at(&mut buf, 0, 3);
    buf.insert_text_before(&a, 'X').unwrap();
    assert_eq!(lines_of(&buf), vec!["abXcd"]);
    assert_eq!(buf.position(&a), Some(Position::new(0, 3)));
    assert_eq!(buf.position(&b), Some(Position::new(0, 3)));
    buf.insert_text_before(&a, 'Y').unwrap();
    assert_eq!(lines_of(&buf), vec!["abXYcd"]);
    assert_eq!(buf.position(&a), Some(Position::new(0, 4)));
}

#[test]
fn newline_at_the_ends_of_a_line() {
    let mut buf = Buffer::load_from_file("f", "abc", Settings::new());
    let a = anchor_at(&mut buf, 0, 3);
    buf.insert_text_before(&a, '\n').unwrap();
    assert_eq!(lines_of(&buf), vec!["abc", ""]);
    assert_eq!(buf.position(&a), Some(Position::new(1, 0)));
    let b = anchor_at(&mut buf, 0, 0);
    buf.insert_text_before(&b, '\n').unwrap();
    assert_eq!(lines_of(&buf), vec!["", "abc", ""]);
    assert_eq!(buf.position(&b), Some(Position::new(1, 0)));
    assert_eq!(buf.position(&a), Some(Position::new(1, 0)));
}

#[test]
fn newline_moves_only_the_acting_anchor() {
    let mut buf = Buffer::load_from_file("f", "abcdef\nxy", Settings::new());
    let a = anchor_at(&mut buf, 0, 3);
    let b = anchor_at(&mut buf, 0, 1);
    let c = anchor_at(&mut buf, 1, 2);
    buf.insert_text_before(&a, '\n').unwrap();
    assert_eq!(lines_of(&buf), vec!["abc", "def", "xy"]);
    assert_eq!(buf.position(&a), Some(Position::new(1, 0)));
    assert_eq!(buf.position(&b), Some(Position::new(0, 1)));
    assert_eq!(buf.position(&c), Some(Position::new(1, 2)));
}

#[test]
fn backward_delete_at_the_start_of_the_text_does_nothing() {
    let mut buf = Buffer::load_from_file("f", "ab\ncd", Settings::new());
    let a = buf.new_anchor();
    buf.delete_at(&a, &Direction::B).unwrap();
    assert_eq!(lines_of(&buf), vec!["ab", "cd"]);
    assert_eq!(buf.position(&a), Some(Position::new(0, 0)));
    assert!(!buf.is_unsaved());
}

#[test]
fn forward_delete_removes_the_character_after_the_anchor() {
    let mut buf = Buffer::load_from_file("f", "abcd", Settings::new());
    let a = anchor_at(&mut buf, 0, 1);
    let b = anchor_at(&mut buf, 0, 3);
    buf.delete_at(&a, &Direction::F).unwrap();
    assert_eq!(lines_of(&buf), vec!["acd"]);
    assert_eq!(buf.position(&a), Some(Position::new(0, 1)));
    assert_eq!(buf.position(&b), Some(Position::new(0, 2)));
}

#[test]
fn forward_delete_at_the_end_of_a_line_does_not_merge() {
    let mut buf = Buffer::load_from_file("f", "ab\ncd", Settings::new());
    let a = anchor_at(&mut buf, 0, 2);
    buf.delete_at(&a, &Direction::F).unwrap();
    assert_eq!(lines_of(&buf), vec!["a", "cd"]);
    assert_eq!(buf.position(&a), Some(Position::new(0, 1)));
}

#[test]
fn forward_delete_on_an_empty_first_line_does_nothing() {
    let mut buf = Buffer::load_from_file("f", "\ncd", Settings::new());
    let a = buf.new_anchor();
    buf.delete_at(&a, &Direction::F).unwrap();
    assert_eq!(lines_of(&buf), vec!["", "cd"]);
    assert_eq!(buf.position(&a), Some(Position::new(0, 0)));
}

#[test]
fn merge_carries_every_anchor_of_the_joined_line() {
    let mut buf = Buffer::load_from_file("f", "abc\ndefg\nh", Settings::new());
    let a = anchor_at(&mut buf, 1, 0);
    let b = anchor_at(&mut buf, 1, 3);
    let c = anchor_at(&mut buf, 0, 1);
    let d = anchor_at(&mut buf, 2, 1);
    buf.delete_at(&a, &Direction::B).unwrap();
    assert_eq!(lines_of(&buf), vec!["abcdefg", "h"]);
    assert_eq!(buf.position(&a), Some(Position::new(0, 3)));
    assert_eq!(buf.position(&b), Some(Position::new(0, 6)));
    assert_eq!(buf.position(&c), Some(Position::new(0, 1)));
    assert_eq!(buf.position(&d), Some(Position::new(2, 1)));
}

#[test]
fn an_anchor_whose_line_is_gone_is_refused() {
    let mut buf = Buffer::load_from_file("f", "abc\ndefg\nh", Settings::new());
    let a = anchor_at(&mut buf, 1, 0);
    let d = anchor_at(&mut buf, 2, 1);
    buf.delete_at(&a, &Direction::B).unwrap();
    assert_eq!(buf.count_lines(), 2);
    let e = buf.insert_text_before(&d, 'x').unwrap_err();
    assert_eq!(e.kind, ErrorKind::NoLineAtPosition);
    assert_eq!(e.description(), "no line at position");
    let e = buf.delete_at(&d, &Direction::B).unwrap_err();
    assert_eq!(e.kind, ErrorKind::NoLineAtPosition);
    let e = buf.delete_at(&d, &Direction::F).unwrap_err();
    assert_eq!(e.kind, ErrorKind::NoLineAtPosition);
    assert_eq!(lines_of(&buf), vec!["abcdefg", "h"]);
    assert_eq!(buf.get_anchor_line(&d, &crb::buffer::Wrap::default(80)).unwrap(), (2, 0));
    buf.move_anchor(&d, &Command::MoveDown(0)).unwrap();
    assert_eq!(buf.position(&d), Some(Position::new(1, 1)));
    buf.insert_text_before(&d, 'x').unwrap();
    assert_eq!(lines_of(&buf), vec!["abcdefg", "hx"]);
}

#[test]
fn an_anchor_beyond_the_end_of_its_line_is_refused() {
    let mut buf = Buffer::load_from_file("f", "abcdef", Settings::new());
    let a = anchor_at(&mut buf, 0, 2);
    let b = anchor_at(&mut buf, 0, 5);
    buf.insert_text_before(&a, '\n').unwrap();
    assert_eq!(lines_of(&buf), vec!["ab", "cdef"]);
    assert_eq!(buf.position(&b), Some(Position::new(0, 5)));
    let e = buf.insert_text_before(&b, 'x').unwrap_err();
    assert_eq!(e.kind, ErrorKind::NoLineAtPosition);
    let e = buf.delete_at(&b, &Direction::B).unwrap_err();
    assert_eq!(e.kind, ErrorKind::NoLineAtPosition);
    assert_eq!(lines_of(&buf), vec!["ab", "cdef"]);
    buf.delete_at(&b, &Direction::F).unwrap();
    assert_eq!(lines_of(&buf), vec!["a", "cdef"]);
}

#[test]
fn every_operation_refuses_an_anchor_of_another_buffer() {
    let mut big = Buffer::empty(Settings::new());
    big.new_anchor();
    let stale = big.new_anchor();
    let mut buf = Buffer::load_from_file("f", "ab", Settings::new());
    buf.new_anchor();
    assert_eq!(buf.insert_text_before(&stale, 'x').unwrap_err().kind, ErrorKind::NoSuchAnchor);
    assert_eq!(buf.delete_at(&stale, &Direction::B).unwrap_err().kind, ErrorKind::NoSuchAnchor);
    assert_eq!(buf.delete_at(&stale, &Direction::F).unwrap_err().kind, ErrorKind::NoSuchAnchor);
    assert_eq!(
        buf.get_anchor_line(&stale, &crb::buffer::Wrap::default(80)).unwrap_err().kind,
        ErrorKind::NoSuchAnchor
    );
    assert!(!buf.anchor_at(&stale, 0, 0));
    assert_eq!(buf.position(&stale), None);
    assert_eq!(lines_of(&buf), vec!["ab"]);
}

#[test]
fn clear_empties_the_text_and_resets_the_anchors() {
    let mut buf = Buffer::load_from_file("f", "abc\ndef", Settings::new());
    let a = anchor_at(&mut buf, 1, 2);
    let b = anchor_at(&mut buf, 0, 3);
    buf.clear().unwrap();
    assert_eq!(lines_of(&buf), vec![""]);
    assert_eq!(buf.position(&a), Some(Position::new(0, 0)));
    assert_eq!(buf.position(&b), Some(Position::new(0, 0)));
    assert_eq!(buf.path(), Some("f"));
}

#[test]
fn new_anchors_start_at_the_top_and_are_all_different() {
    let mut buf = Buffer::load_from_file("f", "abc", Settings::new());
    let a = buf.new_anchor();
    let b = buf.new_anchor();
    assert_ne!(a, b);
    assert!(buf.anchor_at(&a, 0, 0));
    assert!(buf.anchor_at(&b, 0, 0));
    assert!(!buf.anchor_at(&a, 1, 0));
    assert_eq!(buf.count_anchors(), 2);
    assert_eq!(buf.get_anchor_line(&a, &crb::buffer::Wrap::default(80)).unwrap(), (0, 0));
}

#[test]
fn anchors_are_listed_by_line_then_offset_then_age() {
    let mut buf = Buffer::load_from_file("f", "abc\ndef", Settings::new());
    let a = anchor_at(&mut buf, 1, 1);
    let b = anchor_at(&mut buf, 0, 2);
    let c = anchor_at(&mut buf, 1, 0);
    let d = anchor_at(&mut buf, 0, 2);
    let order: Vec<Anchor> = buf.all_anchors().iter().map(|e| e.0).collect();
    assert_eq!(order, vec![b, d, c, a]);
    let places: Vec<Position> = buf.all_anchors().iter().map(|e| e.1).collect();
    assert_eq!(
        places,
        vec![Position::new(0, 2), Position::new(0, 2), Position::new(1, 0), Position::new(1, 1)]
    );
}
