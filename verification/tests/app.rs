use text_editor::app::{respond, AppSignal};
use text_editor::editor::EditorResult;

#[test]
fn quit_signal() {
    assert!(AppSignal::Quit.should_quit());
    assert!(!AppSignal::Continue.should_quit());
}

#[test]
fn responses_to_editor_results() {
    let r = respond(EditorResult::Save);
    assert!(r.save);
    assert_eq!(r.signal, AppSignal::Continue);
    let r = respond(EditorResult::Quit);
    assert!(!r.save);
    assert_eq!(r.signal, AppSignal::Quit);
    assert_eq!(respond(EditorResult::Consumed).signal, AppSignal::Continue);
    assert!(!respond(EditorResult::Ignored).save);
}
