use termdash::editor::{focus_timer_command, history_request, history_status, records_pending_edit, FocusTimerCommand};
use termdash::editor::{EditorState, History, HistoryAction, HISTORY_LIMIT};

#[test]
fn undo_and_redo_walk_the_history() {
    let mut history: History<u32> = History::new();
    history.reset(&1);
    history.push(&2);
    history.push(&3);
    let mut level = 3;
    assert_eq!(history.undo(&mut level), Ok(()));
    assert_eq!(level, 2);
    assert_eq!(history.undo(&mut level), Ok(()));
    assert_eq!(level, 1);
    assert_eq!(history.undo(&mut level), Err("there are no previous levels"));
    assert_eq!(level, 1);
    assert_eq!(history.redo(&mut level), Ok(()));
    assert_eq!(level, 2);
    assert_eq!(history.redo(&mut level), Ok(()));
    assert_eq!(level, 3);
    assert_eq!(history.redo(&mut level), Err("there are no redo levels"));
}

#[test]
fn push_drops_redo_versions() {
    let mut history: History<u32> = History::default();
    history.reset(&10);
    history.push(&20);
    let mut level = 20;
    history.undo(&mut level).unwrap();
    history.push(&30);
    assert_eq!(history.redo(&mut level), Err("there are no redo levels"));
    history.undo(&mut level).unwrap();
    assert_eq!(level, 10);
}

#[test]
fn history_keeps_the_latest_hundred() {
    let mut history: History<usize> = History::new();
    history.reset(&0);
    for i in 1..=150 {
        history.push(&i);
    }
    let mut level = 150;
    let mut undos = 0;
    while history.undo(&mut level).is_ok() {
        undos += 1;
    }
    assert_eq!(undos, HISTORY_LIMIT - 1);
    assert_eq!(level, 51);
}

#[test]
fn empty_history_has_nothing() {
    let mut history: History<u32> = History::new();
    let mut level = 5;
    assert!(history.undo(&mut level).is_err());
    assert!(history.redo(&mut level).is_err());
    assert_eq!(level, 5);
}

#[test]
fn editor_state_defaults() {
    let editor: EditorState<u32> = EditorState::default();
    assert_eq!(editor.status, "editor closed");
    assert!(!editor.dirty && !editor.refresh_pending);
    assert_eq!(editor.selected_object, None);
    assert_eq!(editor.history_level, None);
}

#[test]
fn clamp_drops_stale_selection() {
    let mut editor: EditorState<u32> = EditorState::new();
    editor.selected_object = Some(3);
    editor.clamp_selection(4);
    assert_eq!(editor.selected_object, Some(3));
    editor.clamp_selection(3);
    assert_eq!(editor.selected_object, None);
}

#[test]
fn edits_are_recorded_once() {
    let mut editor: EditorState<u32> = EditorState::new();
    editor.sync_history(&1, Some(0));
    assert_eq!(editor.history_level, Some(0));
    editor.mark_edited(2);
    assert!(editor.dirty && editor.refresh_pending);
    assert_eq!(editor.status, "edited level data");
    assert!(editor.finish_pending_edit(&2));
    assert!(!editor.finish_pending_edit(&2));
    let mut level = 2;
    assert!(editor.apply_history(&mut level, HistoryAction::Undo, "undid level edit", |level: &u32| *level as usize));
    assert_eq!(level, 1);
    assert_eq!(editor.status, "undid level edit");
    assert!(!editor.apply_history(&mut level, HistoryAction::Undo, "undid level edit", |level: &u32| *level as usize));
    assert_eq!(editor.status, "there are no previous levels");
    assert!(editor.apply_history(&mut level, HistoryAction::Redo, "redid level edit", |level: &u32| *level as usize));
    assert_eq!(level, 2);
}

#[test]
fn sync_history_resets_for_another_level() {
    let mut editor: EditorState<u32> = EditorState::new();
    editor.sync_history(&1, Some(0));
    editor.mark_edited(0);
    editor.finish_pending_edit(&2);
    editor.sync_history(&9, Some(1));
    assert!(!editor.dirty);
    let mut level = 9;
    assert!(!editor.apply_history(&mut level, HistoryAction::Undo, "undid level edit", |level: &u32| *level as usize));
    editor.sync_history(&5, Some(1));
    assert!(!editor.apply_history(&mut level, HistoryAction::Undo, "undid level edit", |level: &u32| *level as usize));
}

#[test]
fn delete_takes_a_valid_selection() {
    let mut editor: EditorState<u32> = EditorState::new();
    editor.selected_object = Some(1);
    assert_eq!(editor.take_selected_for_delete(1), None);
    assert_eq!(editor.selected_object, Some(1));
    assert_eq!(editor.take_selected_for_delete(2), Some(1));
    assert_eq!(editor.selected_object, None);
}

#[test]
fn save_outcome_sets_status() {
    let mut editor: EditorState<u32> = EditorState::new();
    editor.dirty = true;
    editor.record_save(Err("disk full".to_string()));
    assert!(editor.dirty);
    assert_eq!(editor.status, "save failed: disk full");
    editor.record_save(Ok("worlds/a.json".to_string()));
    assert!(!editor.dirty);
    assert_eq!(editor.status, "saved worlds/a.json");
}

#[test]
fn focus_timer_commands() {
    assert_eq!(focus_timer_command(true, Some(false)), FocusTimerCommand::Cancel);
    assert_eq!(focus_timer_command(false, Some(false)), FocusTimerCommand::Start);
    assert_eq!(focus_timer_command(false, Some(true)), FocusTimerCommand::Cancel);
    assert_eq!(focus_timer_command(false, None), FocusTimerCommand::Keep);
}

#[test]
fn version_count_follows_pushes() {
    let mut history: History<u32> = History::new();
    assert_eq!(history.version_count(), 0);
    history.reset(&1);
    assert_eq!(history.version_count(), 1);
    history.push(&2);
    history.push(&3);
    assert_eq!(history.version_count(), 3);
    let mut level = 3;
    assert_eq!(history.undo(&mut level), Ok(()));
    history.push(&4);
    assert_eq!(history.version_count(), 3);
}

#[test]
fn redo_after_undo_restores_the_level() {
    let mut history: History<u64> = History::new();
    history.reset(&10);
    history.push(&20);
    let mut level = 20;
    assert_eq!(history.undo(&mut level), Ok(()));
    assert_eq!(level, 10);
    assert_eq!(history.redo(&mut level), Ok(()));
    assert_eq!(level, 20);
}

#[test]
fn frame_requests() {
    assert_eq!(history_request(true, true), Some(HistoryAction::Undo));
    assert_eq!(history_request(false, true), Some(HistoryAction::Redo));
    assert_eq!(history_request(false, false), None);
    assert_eq!(history_status(HistoryAction::Undo), "undid level edit");
    assert_eq!(history_status(HistoryAction::Redo), "redid level edit");
    assert!(records_pending_edit(false, false, false));
    assert!(!records_pending_edit(true, false, false));
    assert!(records_pending_edit(true, true, false));
    assert!(records_pending_edit(true, false, true));
}

#[test]
fn history_step_clamps_the_selection() {
    // the level is its own object count here
    let mut editor: EditorState<u32> = EditorState::new();
    editor.sync_history(&5, Some(0));
    editor.mark_edited(5);
    editor.finish_pending_edit(&1);
    let mut level = 1;
    editor.selected_object = Some(0);
    assert!(editor.apply_history(&mut level, HistoryAction::Undo, "undid level edit", |level: &u32| *level as usize));
    assert_eq!(level, 5);
    assert_eq!(editor.selected_object, Some(0));
    editor.selected_object = Some(3);
    assert!(editor.apply_history(&mut level, HistoryAction::Redo, "redid level edit", |level: &u32| *level as usize));
    assert_eq!(level, 1);
    assert_eq!(editor.selected_object, None);
}
