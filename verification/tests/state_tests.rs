use termdash::input::{InputState, KeyCode, KeyEvent, KeyEventKind};
use termdash::state::AppState;

#[test]
fn escape_pauses_and_resumes() {
    assert_eq!(AppState::Playing.transition(true, false, false, true), Some(AppState::Paused));
    assert_eq!(AppState::Paused.transition(true, false, false, true), Some(AppState::Playing));
}

#[test]
fn enter_leaves_pause_for_menu() {
    assert_eq!(AppState::Paused.transition(true, true, false, false), Some(AppState::MainMenu));
    assert_eq!(AppState::DeathPaused.transition(false, true, false, false), Some(AppState::MainMenu));
    assert_eq!(AppState::Victory.transition(false, true, false, false), Some(AppState::MainMenu));
}

#[test]
fn editor_needs_graphics() {
    assert_eq!(AppState::Playing.transition(false, false, true, true), Some(AppState::Editing));
    assert_eq!(AppState::Playing.transition(false, false, true, false), None);
    assert_eq!(AppState::Paused.transition(true, false, true, false), Some(AppState::Playing));
    assert_eq!(AppState::Editing.transition(false, false, true, false), Some(AppState::Playing));
}

#[test]
fn death_pause_toggles() {
    assert_eq!(AppState::Dead.transition(true, false, false, false), Some(AppState::DeathPaused));
    assert_eq!(AppState::DeathPaused.transition(true, false, false, false), Some(AppState::Dead));
    assert_eq!(AppState::Dead.transition(false, true, false, false), None);
}

#[test]
fn main_menu_never_changes_here() {
    assert_eq!(AppState::MainMenu.transition(true, true, true, true), None);
    assert_eq!(AppState::default(), AppState::MainMenu);
}

#[test]
fn transition_from_input() {
    let mut input = InputState::new();
    input.update(&vec![KeyEvent { code: KeyCode::Char('e'), kind: KeyEventKind::Press }]);
    assert_eq!(AppState::Paused.after_input(&input, true), Some(AppState::Editing));
    assert_eq!(AppState::Victory.after_input(&input, true), None);
}

#[test]
fn editor_focus_and_pause_menu() {
    assert_eq!(AppState::Dead.on_editor_focus(), Some(AppState::Editing));
    assert_eq!(AppState::MainMenu.on_editor_focus(), None);
    assert_eq!(AppState::from_pause_menu(true, true), Some(AppState::MainMenu));
    assert_eq!(AppState::from_pause_menu(true, false), Some(AppState::Playing));
    assert_eq!(AppState::from_pause_menu(false, false), None);
}
