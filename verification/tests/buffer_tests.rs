use neomacs::buffer::{Buffer, BufferState};
use neomacs::error::NeomacsError;

#[test]
fn buffer_doc_example() {
    let mut buf = Buffer::new("hello-world.txt");

    buf.insert("Hello, world!");
    assert_eq!(buf.contents().to_string(), "Hello, world!");

    buf.set_point(7);
    buf.insert("beautiful ");
    assert_eq!(buf.contents().to_string(), "Hello, beautiful world!");

    buf.set_mark(7);
    buf.remove();
    assert_eq!(buf.contents().to_string(), "Hello, world!");

    assert_eq!(buf.slice(0..5), "Hello");
    buf.set_point(0);
    buf.set_mark(5);
    assert_eq!(buf.region_slice().unwrap(), "Hello");
}

#[test]
fn new_buffer_is_empty_with_point_at_start() {
    let buf = Buffer::new("scratch");
    assert_eq!(buf.name(), "scratch");
    assert_eq!(buf.len_chars(), 0);
    assert_eq!(buf.point().char_idx, 0);
    assert!(buf.mark().is_none());
    let untitled = Buffer::default();
    assert_eq!(untitled.name(), "(untitled)");
}

#[test]
fn insert_moves_point_by_chars_not_bytes() {
    let mut buf = Buffer::new("u");
    buf.insert("héllo");
    assert_eq!(buf.point().char_idx, 5);
    assert_eq!(buf.len_chars(), 5);
    buf.set_point(1);
    buf.insert("ß");
    assert_eq!(buf.contents().to_string(), "hßéllo");
    assert_eq!(buf.point().char_idx, 2);
}

#[test]
fn insert_at_does_not_move_point() {
    let mut buf = Buffer::new("b");
    buf.insert("world");
    buf.insert_at(0, "hello ");
    assert_eq!(buf.contents().to_string(), "hello world");
    assert_eq!(buf.point().char_idx, 5);
}

#[test]
fn remove_without_mark_changes_nothing() {
    let mut buf = Buffer::new("b");
    buf.insert("abc");
    buf.remove();
    assert_eq!(buf.contents().to_string(), "abc");
    assert!(buf.region_slice().is_none());
}

#[test]
fn region_is_ordered_whichever_side_the_mark_is() {
    let mut buf = Buffer::new("b");
    buf.insert("0123456789");
    buf.set_point(7);
    buf.set_mark(2);
    assert_eq!(buf.region_slice().unwrap(), "23456");
    buf.set_mark_to_point();
    assert_eq!(buf.mark().unwrap().char_idx, 7);
    assert_eq!(buf.region_slice().unwrap(), "");
    buf.clear_mark();
    assert!(buf.mark().is_none());
    buf.remove_at(0..3);
    assert_eq!(buf.contents().to_string(), "3456789");
}

#[test]
fn insert_then_remove_region_restores_text() {
    let mut buf = Buffer::new("b");
    buf.insert("abcdef");
    buf.set_point(3);
    buf.insert("XYZ");
    buf.set_mark(3);
    buf.remove();
    assert_eq!(buf.contents().to_string(), "abcdef");
}

#[test]
fn buffer_state_starts_with_untitled_current() {
    let state = BufferState::default();
    assert_eq!(state.current_buffer().name(), "(untitled)");
    assert!(state.get_buffer("(untitled)").is_some());
    assert!(state.get_buffer("other").is_none());
}

#[test]
fn add_then_get_and_switch() {
    let mut state = BufferState::default();
    let mut b = Buffer::new("notes.txt");
    b.insert("todo");
    assert!(state.add_buffer(b).is_ok());
    assert_eq!(state.get_buffer("notes.txt").unwrap().contents().to_string(), "todo");
    assert!(state.set_current_buffer("notes.txt").is_ok());
    assert_eq!(state.current_buffer().name(), "notes.txt");
}

#[test]
fn add_existing_name_fails() {
    let mut state = BufferState::default();
    match state.add_buffer(Buffer::new("(untitled)")) {
        Err(NeomacsError::AlreadyExists(m)) => assert_eq!(m, "Buffer (untitled)"),
        other => panic!("unexpected {:?}", other),
    }
}

#[test]
fn switch_to_missing_buffer_fails() {
    let mut state = BufferState::default();
    match state.set_current_buffer("nope") {
        Err(NeomacsError::DoesNotExist(m)) => assert_eq!(m, "Buffer nope"),
        other => panic!("unexpected {:?}", other),
    }
    assert_eq!(state.current_buffer().name(), "(untitled)");
}

#[test]
fn delete_current_switches_to_another() {
    let mut state = BufferState::default();
    state.add_buffer(Buffer::new("a")).unwrap();
    assert!(state.delete_buffer("(untitled)").is_ok());
    assert_eq!(state.current_buffer().name(), "a");
    assert!(state.get_buffer("(untitled)").is_none());
}

#[test]
fn delete_only_buffer_opens_untitled() {
    let mut state = BufferState::default();
    state.add_buffer(Buffer::new("a")).unwrap();
    state.set_current_buffer("a").unwrap();
    state.delete_buffer("(untitled)").unwrap();
    assert!(state.delete_buffer("a").is_ok());
    assert_eq!(state.current_buffer().name(), "(untitled)");
    assert!(state.get_buffer("a").is_none());
}

#[test]
fn delete_only_untitled_buffer_fails() {
    let mut state = BufferState::default();
    match state.delete_buffer("(untitled)") {
        Err(NeomacsError::AlreadyExists(m)) => assert_eq!(m, "Buffer (untitled)"),
        other => panic!("unexpected {:?}", other),
    }
    assert_eq!(state.current_buffer().name(), "(untitled)");
}

#[test]
fn delete_missing_or_other_buffer() {
    let mut state = BufferState::default();
    assert!(state.delete_buffer("ghost").is_ok());
    state.add_buffer(Buffer::new("x")).unwrap();
    assert!(state.delete_buffer("x").is_ok());
    assert!(state.get_buffer("x").is_none());
    assert_eq!(state.current_buffer().name(), "(untitled)");
}

#[test]
fn rename_moves_buffer_and_keeps_current() {
    let mut state = BufferState::default();
    state.current_buffer_mut().insert("text");
    assert!(state.rename_buffer("(untitled)", "main.rs").is_ok());
    assert!(state.get_buffer("(untitled)").is_none());
    let b = state.get_buffer("main.rs").unwrap();
    assert_eq!(b.name(), "main.rs");
    assert_eq!(b.contents().to_string(), "text");
    assert_eq!(state.current_buffer().name(), "main.rs");
}

#[test]
fn rename_onto_existing_fails_and_missing_is_noop() {
    let mut state = BufferState::default();
    state.add_buffer(Buffer::new("a")).unwrap();
    match state.rename_buffer("a", "(untitled)") {
        Err(NeomacsError::AlreadyExists(m)) => assert_eq!(m, "Buffer (untitled)"),
        other => panic!("unexpected {:?}", other),
    }
    assert!(state.rename_buffer("missing", "b").is_ok());
    assert!(state.get_buffer("b").is_none());
    assert!(state.get_buffer("a").is_some());
}

#[test]
fn get_buffer_mut_edits_in_place() {
    let mut state = BufferState::default();
    state.add_buffer(Buffer::new("a")).unwrap();
    state.get_buffer_mut("a").unwrap().insert("xyz");
    assert_eq!(state.get_buffer("a").unwrap().contents().to_string(), "xyz");
    assert!(state.get_buffer_mut("zzz").is_none());
}
