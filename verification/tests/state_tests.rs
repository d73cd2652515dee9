use editor_core::document::{Action, Direction};
use editor_core::gateway::{
    load_outcome, pick_outcome, resolve_save_path, save_outcome, Error, IoErrorKind, Request,
};
use editor_core::state::{default_file, title, EditorState, Message};
use editor_core::highlight::Theme;

fn opened(path: &str, text: &str) -> Message {
    Message::FileOpened(Ok((path.to_string(), text.to_string())))
}

#[test]
fn startup_state() {
    let (state, req) = EditorState::new();
    assert!(state.path.is_none());
    // No user edits yet: the fresh state is clean.
    assert!(!state.dirty);
    assert!(state.error.is_none());
    assert_eq!(state.theme, Theme::SolarizedDark);
    assert_eq!(state.content.text(), "");
    assert_eq!(req, Request::Load { path: default_file() });
}

#[test]
fn default_file_is_fixed() {
    assert_eq!(default_file(), "src/main.rs");
}

#[test]
fn title_is_fixed() {
    assert_eq!(title(), "A cool editor!");
}

#[test]
fn open_then_dialog_closed_keeps_state() {
    let (mut state, _) = EditorState::new();
    state.update(opened("/tmp/a.txt", "abc"));
    let req = state.update(Message::Open);
    assert_eq!(req, Some(Request::PickAndLoad));
    let req = state.update(Message::FileOpened(Err(Error::DialogClosed)));
    assert_eq!(req, None);
    assert_eq!(state.error, Some(Error::DialogClosed));
    assert_eq!(state.path.as_deref(), Some("/tmp/a.txt"));
    assert_eq!(state.content.text(), "abc");
    assert!(!state.dirty);
}

#[test]
fn save_with_no_path_resolves_new_path() {
    let (mut state, _) = EditorState::new();
    state.update(Message::Edit(Action::Insert('h')));
    assert!(state.dirty);
    let req = state.update(Message::Save);
    let (path, text) = match req {
        Some(Request::Save { path, text }) => (path, text),
        other => panic!("unexpected request: {:?}", other),
    };
    assert!(path.is_none());
    assert_eq!(text, "h");
    // The host would now run the save dialog and the write.
    let resolved = resolve_save_path(path, Some("/tmp/out.txt".to_string())).unwrap();
    let saved = save_outcome(resolved, Ok(())).unwrap();
    let req = state.update(Message::FileSaved(Ok(saved)));
    assert_eq!(req, None);
    assert_eq!(state.path.as_deref(), Some("/tmp/out.txt"));
    assert!(!state.dirty);
}

#[test]
fn content_edit_after_open_sets_dirty() {
    let (mut state, _) = EditorState::new();
    state.update(opened("/tmp/a.txt", "abc"));
    assert!(!state.dirty);
    state.update(Message::Edit(Action::Move(Direction::Right)));
    assert!(!state.dirty);
    state.update(Message::Edit(Action::Insert('x')));
    assert!(state.dirty);
}

#[test]
fn content_edit_after_save_sets_dirty() {
    let (mut state, _) = EditorState::new();
    state.update(Message::FileSaved(Ok("/tmp/a.txt".to_string())));
    assert!(!state.dirty);
    state.update(Message::Edit(Action::DeleteBackward));
    assert!(state.dirty);
}

#[test]
fn insert_two_chars_through_messages() {
    let (mut state, _) = EditorState::new();
    state.update(opened("/tmp/a.txt", ""));
    state.update(Message::Edit(Action::Insert('a')));
    state.update(Message::Edit(Action::Insert('b')));
    assert_eq!(state.content.text(), "ab");
    assert_eq!(state.content.cursor_position(), (0, 2));
    assert!(state.dirty);
}

#[test]
fn edit_clears_stored_error() {
    let (mut state, _) = EditorState::new();
    state.update(Message::FileSaved(Err(Error::Io(IoErrorKind::NotFound))));
    assert_eq!(state.error, Some(Error::Io(IoErrorKind::NotFound)));
    state.update(Message::Edit(Action::Insert('x')));
    assert!(state.error.is_none());
}

#[test]
fn new_clears_path_and_content() {
    let (mut state, _) = EditorState::new();
    state.update(opened("/tmp/a.txt", "abc"));
    let req = state.update(Message::New);
    assert_eq!(req, None);
    assert!(state.path.is_none());
    assert_eq!(state.content.text(), "");
    assert!(state.dirty);
}

#[test]
fn theme_selected_changes_only_theme() {
    let (mut state, _) = EditorState::new();
    let req = state.update(Message::ThemeSelected(Theme::InspiredGitHub));
    assert_eq!(req, None);
    assert_eq!(state.theme, Theme::InspiredGitHub);
    assert!(state.path.is_none());
}

#[test]
fn status_text_shows_error_path_or_marker() {
    let (mut state, _) = EditorState::new();
    assert_eq!(state.status_text(), "New file");
    state.update(opened("/tmp/a.txt", "abc"));
    assert_eq!(state.status_text(), "/tmp/a.txt");
    state.update(Message::FileSaved(Err(Error::Io(IoErrorKind::NotFound))));
    assert_eq!(state.status_text(), "file not found");
    // A closed dialog is not an I/O failure: the path keeps showing.
    state.update(Message::FileOpened(Err(Error::DialogClosed)));
    assert_eq!(state.status_text(), "/tmp/a.txt");
}

#[test]
fn pick_outcome_maps_cancel_to_dialog_closed() {
    assert_eq!(pick_outcome(None), Err(Error::DialogClosed));
    assert_eq!(pick_outcome(Some("/a".to_string())), Ok("/a".to_string()));
}

#[test]
fn load_outcome_pairs_path_with_text() {
    assert_eq!(
        load_outcome("/a".to_string(), Ok("hi".to_string())),
        Ok(("/a".to_string(), "hi".to_string()))
    );
    assert_eq!(
        load_outcome("/a".to_string(), Err(IoErrorKind::NotFound)),
        Err(Error::Io(IoErrorKind::NotFound))
    );
}

#[test]
fn resolve_save_path_prefers_current() {
    assert_eq!(
        resolve_save_path(Some("/a".to_string()), Some("/b".to_string())),
        Ok("/a".to_string())
    );
    assert_eq!(resolve_save_path(None, Some("/b".to_string())), Ok("/b".to_string()));
    assert_eq!(resolve_save_path(None, None), Err(Error::DialogClosed));
}

#[test]
fn save_outcome_maps_write_result() {
    assert_eq!(save_outcome("/a".to_string(), Ok(())), Ok("/a".to_string()));
    assert_eq!(
        save_outcome("/a".to_string(), Err(IoErrorKind::PermissionDenied)),
        Err(Error::Io(IoErrorKind::PermissionDenied))
    );
}
