use termdash::screens::{details_text, level_list_label, list_selection, pause_menu_lines, NO_LEVEL_DETAILS};
use termdash::state::AppState;

#[test]
fn pause_menu_offers_editor_only_when_paused_with_graphics() {
    assert_eq!(
        pause_menu_lines(AppState::Paused, true),
        vec!["Paused", "", "[Esc] resume", "[E] editor", "[Enter] main menu"]
    );
    assert_eq!(
        pause_menu_lines(AppState::Paused, false),
        vec!["Paused", "", "[Esc] resume", "[Enter] main menu"]
    );
    assert_eq!(
        pause_menu_lines(AppState::DeathPaused, true),
        vec!["Paused", "", "[Esc] resume", "[Enter] main menu"]
    );
}

#[test]
fn level_list_entries_and_selection() {
    assert_eq!(level_list_label("Cave"), "  Cave");
    assert_eq!(level_list_label(""), "  ");
    assert_eq!(list_selection(2, 3), Some(2));
    assert_eq!(list_selection(0, 0), None);
}

#[test]
fn details_fall_back_to_a_note() {
    assert_eq!(details_text(Some("A long jump.")), "A long jump.");
    assert_eq!(details_text(None), NO_LEVEL_DETAILS);
    assert_eq!(NO_LEVEL_DETAILS, "no levels found, although, this should never be reached");
}
