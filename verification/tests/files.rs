use crb::buffer::Buffer;
use crb::errors::{CrbError, ErrorKind};
use crb::mode::Command;
use crb::settings::Settings;
use crb::text::{join_text, split_text, to_chars};

#[test]
fn an_empty_file_has_one_empty_line() {
    let buf = Buffer::load_from_file("f", "", Settings::new());
    assert_eq!(buf.count_lines(), 1);
    assert_eq!(buf.line(0), Some(""));
    assert_eq!(buf.line(1), None);
    assert_eq!(buf.line(-1), None);
}

#[test]
fn a_loaded_buffer_knows_its_file() {
    let buf = Buffer::load_from_file("dir/name.txt", "x", Settings::new());
    assert_eq!(buf.file_path, Some("dir/name.txt".to_string()));
    assert_eq!(buf.path(), Some("dir/name.txt"));
    assert!(!buf.newfile);
    assert!(!buf.unsaved);
    assert_eq!(buf.count_anchors(), 0);
}

#[test]
fn a_new_file_buffer_is_empty_and_marked_new() {
    let buf = Buffer::new_file("fresh", Settings::new());
    assert_eq!(buf.count_lines(), 1);
    assert_eq!(buf.line(0), Some(""));
    assert_eq!(buf.path(), Some("fresh"));
    assert!(buf.is_newfile());
    assert!(!buf.is_unsaved());
}

#[test]
fn an_empty_buffer_has_no_file() {
    let buf = Buffer::empty(Settings::new());
    assert_eq!(buf.count_lines(), 1);
    assert_eq!(buf.line(0), Some(""));
    assert_eq!(buf.path(), None);
    assert!(buf.newfile);
    assert_eq!(buf.settings(), Settings::new());
}

#[test]
fn loading_splits_at_newlines_only() {
    let buf = Buffer::load_from_file("f", "a\r\n\nb c\n", Settings::new());
    assert_eq!(buf.count_lines(), 4);
    assert_eq!(buf.line(0), Some("a\r"));
    assert_eq!(buf.line(1), Some(""));
    assert_eq!(buf.line(2), Some("b c"));
    assert_eq!(buf.line(3), Some(""));
}

#[test]
fn saving_writes_a_newline_after_every_line() {
    let buf = Buffer::load_from_file("f", "ab\ncd", Settings::new());
    assert_eq!(buf.save().unwrap(), "ab\ncd\n");
    let empty = Buffer::new_file("f", Settings::new());
    assert_eq!(empty.save().unwrap(), "\n");
}

#[test]
fn save_after_load_gives_the_text_back_line_for_line() {
    for text in ["", "one", "one\ntwo", "one\ntwo\n", "\n\n", "tab\there\n\u{e9}t\u{e9}"] {
        let buf = Buffer::load_from_file("f", text, Settings::new());
        let saved = buf.save().unwrap();
        assert_eq!(saved, format!("{}\n", text));
        let lines: Vec<&str> = text.split('\n').collect();
        let again: Vec<&str> = saved[..saved.len() - 1].split('\n').collect();
        assert_eq!(again, lines);
    }
}

#[test]
fn saving_needs_a_file_path() {
    let buf = Buffer::empty(Settings::new());
    let e = buf.save().unwrap_err();
    assert_eq!(e.kind, ErrorKind::NoFilePath);
    assert_eq!(e.description(), "cannot save with no file path");
    assert_eq!(e.message(), "Crb error: cannot save with no file path");
}

#[test]
fn edits_mark_the_buffer_unsaved_and_saving_clears_the_mark() {
    let mut buf = Buffer::load_from_file("f", "ab", Settings::new());
    let a = buf.new_anchor();
    assert!(!buf.is_unsaved());
    buf.move_anchor(&a, &Command::MoveRight(1)).unwrap();
    assert!(!buf.is_unsaved());
    buf.insert_text_before(&a, 'x').unwrap();
    assert!(buf.is_unsaved());
    assert_eq!(buf.save().unwrap(), "axb\n");
    buf.mark_saved();
    assert!(!buf.is_unsaved());
    buf.clear().unwrap();
    assert!(buf.is_unsaved());
}

#[test]
fn room_counts_down_with_the_text() {
    let mut buf = Buffer::load_from_file("f", "ab\nc", Settings::new());
    assert_eq!(buf.room(), i32::MAX as usize - 5);
    let a = buf.new_anchor();
    buf.insert_text_before(&a, 'x').unwrap();
    assert_eq!(buf.room(), i32::MAX as usize - 6);
    buf.insert_text_before(&a, '\n').unwrap();
    assert_eq!(buf.room(), i32::MAX as usize - 7);
    buf.delete_at(&a, &crb::mode::Direction::B).unwrap();
    assert_eq!(buf.room(), i32::MAX as usize - 6);
    buf.clear().unwrap();
    assert_eq!(buf.room(), i32::MAX as usize - 1);
}

#[test]
fn an_io_error_carries_its_description() {
    let e = CrbError::new("error while saving: disk full");
    assert_eq!(e.kind, ErrorKind::Io);
    assert_eq!(e.description(), "error while saving: disk full");
    assert_eq!(e.message(), "Crb error: error while saving: disk full");
}

#[test]
fn every_kind_of_error_has_its_description() {
    let kinds = [
        (ErrorKind::NoSuchAnchor, "no such anchor"),
        (ErrorKind::NoLineAtPosition, "no line at position"),
        (ErrorKind::UnsupportedMoveCommand, "unsupported move command"),
        (ErrorKind::NoFilePath, "cannot save with no file path"),
        (ErrorKind::Io, "i/o error"),
        (ErrorKind::InvalidScrollCommand, "invalid scroll command"),
        (ErrorKind::InvalidWrapConfiguration, "unsupported wrap"),
    ];
    for (kind, text) in kinds.iter() {
        let e = CrbError::of_kind(*kind);
        assert_eq!(e.kind, *kind);
        assert_eq!(e.description(), *text);
    }
}

#[test]
fn text_helpers_split_join_and_list_characters() {
    assert_eq!(split_text("a\n\nb"), vec!["a", "", "b"]);
    assert_eq!(split_text(""), vec![""]);
    assert_eq!(join_text(&vec!["a".to_string(), "".to_string()]), "a\n\n");
    assert_eq!(join_text(&vec![]), "");
    assert_eq!(to_chars(Some("h\u{e9}")), vec!['h', '\u{e9}']);
    assert_eq!(to_chars(None), Vec::<char>::new());
}
