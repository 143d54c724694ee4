use termdash::input::{InputState, KeyCode, KeyEvent, KeyEventKind};
use termdash::menu::{LevelMenu, MenuCommands, MenuState};

fn frame(keys: &[KeyCode]) -> InputState {
    let mut input = InputState::new();
    let events: Vec<KeyEvent> =
        keys.iter().map(|&code| KeyEvent { code, kind: KeyEventKind::Press }).collect();
    input.update(&events);
    input
}

#[test]
fn menu_state_moves_within_worlds() {
    let mut menu = MenuState::default();
    menu.select_previous();
    assert_eq!(menu.selected_world, 0);
    menu.select_next(3);
    assert_eq!(menu.selected_world, 1);
    menu.select_next(3);
    menu.select_next(3);
    assert_eq!(menu.selected_world, 2);
    menu.select_previous();
    assert_eq!(menu.selected_world, 1);
}

#[test]
fn menu_state_ignores_next_without_worlds() {
    let mut menu = MenuState { selected_world: 4 };
    menu.select_next(0);
    assert_eq!(menu.selected_world, 4);
}

#[test]
fn level_menu_previous_and_next() {
    let mut menu = LevelMenu::default();
    menu.next(2);
    assert_eq!(menu.selected, 1);
    menu.next(2);
    assert_eq!(menu.selected, 1);
    menu.previous();
    menu.previous();
    assert_eq!(menu.selected, 0);
}

#[test]
fn level_menu_next_without_levels_selects_first() {
    let mut menu = LevelMenu { selected: 3, confirm_delete: false };
    menu.next(0);
    assert_eq!(menu.selected, 0);
}

#[test]
fn enter_loads_selected_level() {
    let mut menu = LevelMenu::default();
    let commands = menu.handle_input(&frame(&[KeyCode::Down, KeyCode::Enter]), 3);
    assert_eq!(commands, MenuCommands { delete: None, create: false, load: Some(1) });
    assert_eq!(menu.selected, 1);
}

#[test]
fn plus_creates_a_level() {
    let mut menu = LevelMenu::default();
    let commands = menu.handle_input(&frame(&[KeyCode::Char('+')]), 3);
    assert_eq!(commands, MenuCommands { delete: None, create: true, load: None });
}

#[test]
fn delete_needs_confirmation() {
    let mut menu = LevelMenu { selected: 2, confirm_delete: false };
    let first = menu.handle_input(&frame(&[KeyCode::Char('-')]), 3);
    assert_eq!(first, MenuCommands { delete: None, create: false, load: None });
    assert!(menu.confirm_delete);
    let second = menu.handle_input(&frame(&[KeyCode::Enter]), 3);
    assert_eq!(second, MenuCommands { delete: Some(2), create: false, load: None });
    assert!(!menu.confirm_delete);
}

#[test]
fn escape_cancels_delete() {
    let mut menu = LevelMenu { selected: 1, confirm_delete: true };
    let commands = menu.handle_input(&frame(&[KeyCode::Esc, KeyCode::Down]), 3);
    assert_eq!(commands, MenuCommands { delete: None, create: false, load: None });
    assert!(!menu.confirm_delete);
    assert_eq!(menu.selected, 1);
}

#[test]
fn minus_without_levels_asks_nothing() {
    let mut menu = LevelMenu::default();
    menu.handle_input(&frame(&[KeyCode::Char('-')]), 0);
    assert!(!menu.confirm_delete);
}

#[test]
fn selection_follows_deletion_and_creation() {
    let mut menu = LevelMenu { selected: 4, confirm_delete: false };
    menu.after_delete(4);
    assert_eq!(menu.selected, 3);
    menu.after_delete(0);
    assert_eq!(menu.selected, 0);
    menu.after_create(7);
    assert_eq!(menu.selected, 7);
}
