use video_dispatch::registry::{AppState, VideoMessage};
use video_dispatch::ui::{handle_event, UiAction, UiEvent};

fn msg(key: &str) -> VideoMessage {
    VideoMessage {
        bucket: String::from("b"),
        key: String::from(key),
        receipt_handle: String::from("r"),
    }
}

#[test]
fn quit_exits_and_changes_nothing() {
    let mut st = AppState::new();
    st.push_message(msg("a"));
    let a = handle_event(&mut st, UiEvent::Quit);
    assert!(matches!(a, UiAction::Exit));
    assert_eq!(st.len(), 1);
}

#[test]
fn down_and_up_move_the_cursor() {
    let mut st = AppState::new();
    st.push_message(msg("a"));
    st.push_message(msg("b"));
    assert!(matches!(handle_event(&mut st, UiEvent::MoveDown), UiAction::Continue));
    let (_, sel) = st.snapshot();
    assert_eq!(sel, 1);
    assert!(matches!(handle_event(&mut st, UiEvent::MoveUp), UiAction::Continue));
    let (_, sel) = st.snapshot();
    assert_eq!(sel, 0);
}

#[test]
fn select_pops_the_selected_job() {
    let mut st = AppState::new();
    st.push_message(msg("a"));
    st.push_message(msg("b"));
    handle_event(&mut st, UiEvent::MoveDown);
    match handle_event(&mut st, UiEvent::LaunchSelected) {
        UiAction::StartLaunch(job) => assert_eq!(job.key, "b"),
        _ => panic!("expected a launch to start"),
    }
    assert_eq!(st.len(), 1);
}

#[test]
fn select_on_empty_registry_starts_nothing() {
    // The operator presses "select" with nothing pending: no launch is
    // started and the loop just goes on.
    let mut st = AppState::new();
    let a = handle_event(&mut st, UiEvent::LaunchSelected);
    assert!(matches!(a, UiAction::Continue));
    assert_eq!(st.len(), 0);
}

#[test]
fn unmapped_keys_are_ignored() {
    let mut st = AppState::new();
    st.push_message(msg("a"));
    let a = handle_event(&mut st, UiEvent::Other);
    assert!(matches!(a, UiAction::Continue));
    assert_eq!(st.len(), 1);
    let (_, sel) = st.snapshot();
    assert_eq!(sel, 0);
}
