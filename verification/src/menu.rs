use vstd::prelude::*;
use crate::input::{InputState, KeyCode};

verus! {

/// The entry above `selected`, stopping at the first.
pub open spec fn step_up(selected: usize) -> usize {
    if selected == 0 {
        0
    } else {
        (selected - 1) as usize
    }
}

/// The entry below `selected` in a list of `count` entries, stopping at the
/// last; with no entries, the first.
pub open spec fn step_down(selected: usize, count: usize) -> usize {
    let last: int = if count == 0 { 0 } else { count - 1 };
    if selected + 1 < last {
        (selected + 1) as usize
    } else {
        last as usize
    }
}

/// Selection in the main menu's list of worlds.
pub struct MenuState {
    pub selected_world: usize,
}

impl Default for MenuState {
    /// The first world is selected.
    fn default() -> (m: MenuState)
        ensures
            m.selected_world == 0,
    {
        MenuState { selected_world: 0 }
    }
}

impl MenuState {
    /// Moves the selection one entry up; the first entry stays selected.
    pub fn select_previous(&mut self)
        ensures
            final(self).selected_world == step_up(old(self).selected_world),
    {
        self.selected_world = self.selected_world.saturating_sub(1);
    }

    /// Moves the selection one entry down, stopping at the last of `world_count`
    /// entries; with no entries the selection is left as it is.
    pub fn select_next(&mut self, world_count: usize)
        requires
            world_count > 0 ==> old(self).selected_world < usize::MAX,
        ensures
            world_count == 0 ==> final(self).selected_world == old(self).selected_world,
            world_count > 0 ==> final(self).selected_world == step_down(
                old(self).selected_world,
                world_count,
            ),
    {
        if world_count > 0 {
            self.selected_world = (self.selected_world + 1).min(world_count - 1);
        }
    }
}

/// The main menu's list of levels: which one is selected, and whether a delete
/// waits for confirmation.
pub struct LevelMenu {
    pub selected: usize,
    pub confirm_delete: bool,
}

/// What the main menu asks of the game after one frame of input.
#[derive(Clone, Copy, Debug, PartialEq, Eq, Structural)]
pub struct MenuCommands {
    /// Delete the level at this index.
    pub delete: Option<usize>,
    /// Create a new level and open it in the editor.
    pub create: bool,
    /// Load the level at this index and start playing it.
    pub load: Option<usize>,
}

/// The selection after the Up and Down keys of one frame, Up first.
pub open spec fn spec_moved_selection(selected: usize, up: bool, down: bool, count: usize) -> usize {
    let after_up = if up {
        step_up(selected)
    } else {
        selected
    };
    if down {
        step_down(after_up, count)
    } else {
        after_up
    }
}

/// One frame of the main menu: from the selection, whether a delete waits
/// for confirmation, the keys pressed and the number of levels, the new
/// selection, whether a delete then waits, and the commands for the game.
pub open spec fn menu_step(selected: usize, confirm_delete: bool, keys: Set<KeyCode>, count: usize) -> (
    usize,
    bool,
    MenuCommands,
) {
    let enter = keys.contains(KeyCode::Enter);
    if confirm_delete {
        let esc = keys.contains(KeyCode::Esc);
        (
            selected,
            !(enter || esc),
            MenuCommands {
                delete: if enter {
                    Some(selected)
                } else {
                    None
                },
                create: false,
                load: None,
            },
        )
    } else {
        let moved = spec_moved_selection(
            selected,
            keys.contains(KeyCode::Up),
            keys.contains(KeyCode::Down),
            count,
        );
        (
            moved,
            keys.contains(KeyCode::Char('-')) && count > 0,
            MenuCommands {
                delete: None,
                create: keys.contains(KeyCode::Char('+')),
                load: if enter {
                    Some(moved)
                } else {
                    None
                },
            },
        )
    }
}

impl Default for LevelMenu {
    /// The first level is selected, and nothing waits for confirmation.
    fn default() -> (m: LevelMenu)
        ensures
            m.selected == 0,
            !m.confirm_delete,
    {
        LevelMenu { selected: 0, confirm_delete: false }
    }
}

impl LevelMenu {
    /// Moves the selection one level up; the first level stays selected.
    pub fn previous(&mut self)
        ensures
            final(self).selected == step_up(old(self).selected),
            final(self).confirm_delete == old(self).confirm_delete,
    {
        self.selected = self.selected.saturating_sub(1);
    }

    /// Moves the selection one level down, stopping at the last of `level_count`
    /// levels (at the first when there is none).
    pub fn next(&mut self, level_count: usize)
        requires
            old(self).selected < usize::MAX,
        ensures
            final(self).selected == step_down(old(self).selected, level_count),
            final(self).confirm_delete == old(self).confirm_delete,
    {
        self.selected = (self.selected + 1).min(level_count.saturating_sub(1));
    }

    /// Handles one frame of keys in the main menu, with `level_count` levels
    /// listed. While a delete waits for confirmation, Enter confirms it and
    /// Esc cancels it, and nothing else happens. Otherwise Up and Down move
    /// the selection, `+` creates a level, `-` asks to delete the selected one
    /// (if there are levels), and Enter plays the selected level.
    pub fn handle_input(&mut self, input: &InputState, level_count: usize) -> (commands:
        MenuCommands)
        requires
            old(self).confirm_delete || !input@.contains(KeyCode::Down) || input@.contains(
                KeyCode::Up,
            ) || old(self).selected < usize::MAX,
        ensures
            (final(self).selected, final(self).confirm_delete, commands) == menu_step(
                old(self).selected,
                old(self).confirm_delete,
                input@,
                level_count,
            ),
    {
        if self.confirm_delete {
            let mut delete = None;
            if input.just_pressed(KeyCode::Enter) {
                delete = Some(self.selected);
                self.confirm_delete = false;
            }
            if input.just_pressed(KeyCode::Esc) {
                self.confirm_delete = false;
            }
            return MenuCommands { delete, create: false, load: None };
        }
        if input.just_pressed(KeyCode::Up) {
            self.previous();
        }
        if input.just_pressed(KeyCode::Down) {
            self.next(level_count);
        }
        let create = input.just_pressed(KeyCode::Char('+'));
        if input.just_pressed(KeyCode::Char('-')) && level_count != 0 {
            self.confirm_delete = true;
        }
        let mut load = None;
        if input.just_pressed(KeyCode::Enter) {
            load = Some(self.selected);
        }
        MenuCommands { delete: None, create, load }
    }

    /// Keeps the selection on the list after a level was deleted, leaving
    /// `level_count` levels.
    pub fn after_delete(&mut self, level_count: usize)
        ensures
            final(self).selected == if level_count == 0 {
                0
            } else if old(self).selected < level_count {
                old(self).selected
            } else {
                (level_count - 1) as usize
            },
            final(self).confirm_delete == old(self).confirm_delete,
    {
        self.selected = self.selected.min(level_count.saturating_sub(1));
    }

    /// Selects a level that was just created at `index`.
    pub fn after_create(&mut self, index: usize)
        ensures
            final(self).selected == index,
            final(self).confirm_delete == old(self).confirm_delete,
    {
        self.selected = index;
    }
}

/// Moving up never leaves a list, and moving down keeps a selection that was
/// on a nonempty list on it.
pub proof fn lemma_steps_stay_on_list(selected: usize, count: usize)
    requires
        selected < count,
    ensures
        step_up(selected) < count,
        step_down(selected, count) < count,
        step_up(selected) <= selected,
        selected <= step_down(selected, count),
{
}

/// Any frame of input leaves a selection that was on a nonempty list on it.
pub proof fn lemma_selection_stays_on_list(selected: usize, up: bool, down: bool, count: usize)
    requires
        selected < count,
    ensures
        spec_moved_selection(selected, up, down, count) < count,
{
    lemma_steps_stay_on_list(selected, count);
    if up {
        lemma_steps_stay_on_list(step_up(selected), count);
    }
}

/// Moving down from any entry but the last, then up, comes back to it.
pub proof fn lemma_down_then_up(selected: usize, count: usize)
    requires
        selected + 1 < count,
    ensures
        step_up(step_down(selected, count)) == selected,
{
}

/// Deleting a level takes two frames: the `-` key only asks, and only a
/// pending request, confirmed with Enter, deletes, and then the selected
/// level. A request is only made when there are levels, and it is resolved
/// (confirmed or cancelled) by Enter or Esc.
pub proof fn lemma_delete_needs_confirmation(
    selected: usize,
    confirm_delete: bool,
    keys: Set<KeyCode>,
    count: usize,
)
    ensures
        ({
            let (next_selected, next_confirm, commands) = menu_step(selected, confirm_delete, keys, count);
            &&& commands.delete is Some ==> confirm_delete && commands.delete == Some(selected)
            &&& !confirm_delete && next_confirm ==> count > 0 && keys.contains(KeyCode::Char('-'))
            &&& confirm_delete && (keys.contains(KeyCode::Enter) || keys.contains(KeyCode::Esc))
                ==> !next_confirm
            &&& confirm_delete ==> next_selected == selected && commands.load is None
                && !commands.create
        }),
{
}

/// Playing loads the level that is selected after the frame's moves, and a
/// selection on a nonempty list stays on it.
pub proof fn lemma_load_names_a_listed_level(
    selected: usize,
    keys: Set<KeyCode>,
    count: usize,
)
    requires
        selected < count,
    ensures
        ({
            let (next_selected, _, commands) = menu_step(selected, false, keys, count);
            &&& next_selected < count
            &&& commands.load matches Some(index) ==> index == next_selected
        }),
{
    lemma_selection_stays_on_list(
        selected,
        keys.contains(KeyCode::Up),
        keys.contains(KeyCode::Down),
        count,
    );
}

/// What one frame of keys does in the main menu with `count` levels listed.
/// While a delete waits for confirmation: Enter deletes the selected level,
/// Enter or Esc ends the wait, and nothing else happens. Otherwise: Up alone
/// moves the selection one level up (not above the first), Down alone one
/// level down (not below the last), both together up then down, and neither
/// leaves it; Enter plays the level selected after the move, `+` creates a
/// level, and `-` asks to delete the selected one if there is a level.
pub proof fn lemma_menu_keys(selected: usize, confirm_delete: bool, keys: Set<KeyCode>, count: usize)
    ensures
        ({
            let (next, pending, commands) = menu_step(selected, confirm_delete, keys, count);
            let up = keys.contains(KeyCode::Up);
            let down = keys.contains(KeyCode::Down);
            let enter = keys.contains(KeyCode::Enter);
            let esc = keys.contains(KeyCode::Esc);
            let last: int = if count == 0 {
                0
            } else {
                count - 1
            };
            &&& confirm_delete ==> {
                &&& next == selected
                &&& pending == !(enter || esc)
                &&& commands.delete == if enter {
                    Some(selected)
                } else {
                    None
                }
                &&& commands.load is None
                &&& !commands.create
            }
            &&& !confirm_delete ==> {
                &&& up && !down ==> next == if selected == 0 {
                    0
                } else {
                    selected - 1
                }
                &&& down && !up ==> next == if selected + 1 <= last {
                    selected + 1
                } else {
                    last
                }
                &&& up && down ==> next == if selected == 0 {
                    if 1 <= last {
                        1
                    } else {
                        last
                    }
                } else if selected <= last {
                    selected as int
                } else {
                    last
                }
                &&& !up && !down ==> next == selected
                &&& commands.load == if enter {
                    Some(next)
                } else {
                    None
                }
                &&& commands.create == keys.contains(KeyCode::Char('+'))
                &&& commands.delete is None
                &&& pending == (keys.contains(KeyCode::Char('-')) && count > 0)
            }
        }),
{
}

} // verus!
