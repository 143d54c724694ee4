use termdash::input::{jump_pressed, read_key_presses, InputState, KeyCode, KeyEvent, KeyEventKind};

fn ev(code: KeyCode, kind: KeyEventKind) -> KeyEvent {
    KeyEvent { code, kind }
}

#[test]
fn only_presses_count() {
    let mut input = InputState::default();
    input.update(&vec![
        ev(KeyCode::Up, KeyEventKind::Press),
        ev(KeyCode::Down, KeyEventKind::Release),
        ev(KeyCode::Enter, KeyEventKind::Repeat),
    ]);
    assert!(input.just_pressed(KeyCode::Up));
    assert!(!input.just_pressed(KeyCode::Down));
    assert!(!input.just_pressed(KeyCode::Enter));
}

#[test]
fn update_forgets_last_frame() {
    let mut input = InputState::new();
    input.update(&vec![ev(KeyCode::Esc, KeyEventKind::Press)]);
    assert!(input.just_pressed(KeyCode::Esc));
    input.update(&vec![]);
    assert!(!input.just_pressed(KeyCode::Esc));
}

#[test]
fn chars_are_told_apart() {
    let mut input = InputState::new();
    input.update(&vec![ev(KeyCode::Char('e'), KeyEventKind::Press)]);
    assert!(input.just_pressed(KeyCode::Char('e')));
    assert!(!input.just_pressed(KeyCode::Char('+')));
}

#[test]
fn key_presses_in_order() {
    let codes = read_key_presses(&vec![
        ev(KeyCode::Enter, KeyEventKind::Press),
        ev(KeyCode::Up, KeyEventKind::Release),
        ev(KeyCode::Esc, KeyEventKind::Press),
    ]);
    assert_eq!(codes, vec![KeyCode::Enter, KeyCode::Esc]);
}

#[test]
fn jump_counts_repeats() {
    assert!(jump_pressed(&vec![ev(KeyCode::Up, KeyEventKind::Repeat)]));
    assert!(jump_pressed(&vec![ev(KeyCode::Up, KeyEventKind::Press)]));
    assert!(!jump_pressed(&vec![ev(KeyCode::Up, KeyEventKind::Release)]));
    assert!(!jump_pressed(&vec![ev(KeyCode::Down, KeyEventKind::Press)]));
}
