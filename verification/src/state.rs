use vstd::prelude::*;
use crate::input::{InputState, KeyCode};

verus! {

/// The screens of the game.
#[derive(Clone, Copy, Debug, PartialEq, Eq, Hash, Structural)]
pub enum AppState {
    MainMenu,
    Playing,
    Paused,
    Dead,
    DeathPaused,
    Editing,
    Victory,
}

impl Default for AppState {
    /// The game starts in the main menu.
    fn default() -> (s: AppState)
        ensures
            s == AppState::MainMenu,
    {
        AppState::MainMenu
    }
}

/// The screen that `state` moves to when, in one frame, Esc, Enter and the
/// editor key were pressed as the flags say; `None` when it stays. The editor
/// is only reachable where the game runs with graphics.
pub open spec fn spec_transition(
    state: AppState,
    esc: bool,
    enter: bool,
    edit: bool,
    graphics: bool,
) -> Option<AppState> {
    match state {
        AppState::Playing => if edit && graphics {
            Some(AppState::Editing)
        } else if esc {
            Some(AppState::Paused)
        } else {
            None
        },
        AppState::Paused => if edit && graphics {
            Some(AppState::Editing)
        } else if enter {
            Some(AppState::MainMenu)
        } else if esc {
            Some(AppState::Playing)
        } else {
            None
        },
        AppState::Dead => if esc {
            Some(AppState::DeathPaused)
        } else {
            None
        },
        AppState::DeathPaused => if enter {
            Some(AppState::MainMenu)
        } else if esc {
            Some(AppState::Dead)
        } else {
            None
        },
        AppState::Editing => if edit {
            Some(AppState::Playing)
        } else {
            None
        },
        AppState::Victory => if enter {
            Some(AppState::MainMenu)
        } else {
            None
        },
        AppState::MainMenu => None,
    }
}

/// The key that opens and closes the level editor.
pub open spec fn edit_key() -> KeyCode {
    KeyCode::Char('e')
}

impl AppState {
    /// The screen to switch to after this frame's keys, or `None` to stay:
    /// Esc pauses and resumes, Enter leaves a pause, death or victory for the
    /// main menu, and `e` toggles the editor when `graphics` is on.
    pub fn transition(self, esc: bool, enter: bool, edit: bool, graphics: bool) -> (next:
        Option<AppState>)
        ensures
            next == spec_transition(self, esc, enter, edit, graphics),
    {
        match self {
            AppState::Playing if edit && graphics => Some(AppState::Editing),
            AppState::Playing if esc => Some(AppState::Paused),
            AppState::Paused if edit && graphics => Some(AppState::Editing),
            AppState::Paused if enter => Some(AppState::MainMenu),
            AppState::Paused if esc => Some(AppState::Playing),
            AppState::Dead if esc => Some(AppState::DeathPaused),
            AppState::DeathPaused if enter => Some(AppState::MainMenu),
            AppState::DeathPaused if esc => Some(AppState::Dead),
            AppState::Editing if edit => Some(AppState::Playing),
            AppState::Victory if enter => Some(AppState::MainMenu),
            _ => None,
        }
    }

    /// The screen to switch to given the keys pressed this frame in `input`.
    pub fn after_input(self, input: &InputState, graphics: bool) -> (next: Option<AppState>)
        ensures
            next == spec_transition(
                self,
                input@.contains(KeyCode::Esc),
                input@.contains(KeyCode::Enter),
                input@.contains(edit_key()),
                graphics,
            ),
    {
        let esc = input.just_pressed(KeyCode::Esc);
        let enter = input.just_pressed(KeyCode::Enter);
        let edit = input.just_pressed(KeyCode::Char('e'));
        self.transition(esc, enter, edit, graphics)
    }
}

impl AppState {
    /// The screen to switch to when the editor window gains focus: the editor,
    /// from the running game, its pause menu or the death screen.
    pub fn on_editor_focus(self) -> (next: Option<AppState>)
        ensures
            next == match self {
                AppState::Playing | AppState::Paused | AppState::Dead => Some(AppState::Editing),
                _ => None,
            },
    {
        match self {
            AppState::Playing | AppState::Paused | AppState::Dead => Some(AppState::Editing),
            _ => None,
        }
    }

    /// The screen to switch to from the pause menu of the world list's game,
    /// where Esc resumes and Enter leaves for the main menu; Enter wins when
    /// both are pressed.
    pub fn from_pause_menu(esc: bool, enter: bool) -> (next: Option<AppState>)
        ensures
            next == if enter {
                Some(AppState::MainMenu)
            } else if esc {
                Some(AppState::Playing)
            } else {
                None
            },
    {
        let mut next = None;
        if esc {
            next = Some(AppState::Playing);
        }
        if enter {
            next = Some(AppState::MainMenu);
        }
        next
    }
}

/// Pressing Esc alone pauses a running game, and pressing it alone again
/// resumes it.
pub proof fn lemma_escape_pauses_and_resumes(graphics: bool)
    ensures
        spec_transition(AppState::Playing, true, false, false, graphics) == Some(AppState::Paused),
        spec_transition(AppState::Paused, true, false, false, graphics) == Some(AppState::Playing),
{
}

/// Pressing Esc alone toggles between the death screen and its pause menu.
pub proof fn lemma_escape_toggles_death_pause()
    ensures
        spec_transition(AppState::Dead, true, false, false, false) == Some(AppState::DeathPaused),
        spec_transition(AppState::DeathPaused, true, false, false, false) == Some(AppState::Dead),
{
}

/// Without graphics, no key ever leads to the editor.
pub proof fn lemma_editor_needs_graphics(state: AppState, esc: bool, enter: bool, edit: bool)
    ensures
        spec_transition(state, esc, enter, edit, false) != Some(AppState::Editing),
{
}

/// The editor is entered only with the editor key, and left only to the game.
pub proof fn lemma_editor_entry_and_exit(
    state: AppState,
    esc: bool,
    enter: bool,
    edit: bool,
    graphics: bool,
)
    ensures
        spec_transition(state, esc, enter, edit, graphics) == Some(AppState::Editing) ==> edit
            && graphics,
        state == AppState::Editing ==> spec_transition(state, esc, enter, edit, graphics) == (
        if edit {
            Some(AppState::Playing)
        } else {
            None
        }),
{
}

/// Keys never change the main menu's screen through this rule: leaving the
/// menu is the menu's own decision.
pub proof fn lemma_main_menu_is_stable(esc: bool, enter: bool, edit: bool, graphics: bool)
    ensures
        spec_transition(AppState::MainMenu, esc, enter, edit, graphics) == None::<AppState>,
{
}

/// A transition never leads back to the screen it starts from.
pub proof fn lemma_transition_changes_screen(
    state: AppState,
    esc: bool,
    enter: bool,
    edit: bool,
    graphics: bool,
)
    ensures
        spec_transition(state, esc, enter, edit, graphics) != Some(state),
{
}

/// Enter leaves the pause menu, the death pause and the victory screen for
/// the main menu, with or without graphics; only the editor key, where the
/// game runs with graphics, takes the pause menu to the editor instead.
pub proof fn lemma_enter_leaves_for_main_menu(
    state: AppState,
    esc: bool,
    edit: bool,
    graphics: bool,
)
    requires
        state == AppState::Paused || state == AppState::DeathPaused || state == AppState::Victory,
    ensures
        !(state == AppState::Paused && edit && graphics) ==> spec_transition(
            state,
            esc,
            true,
            edit,
            graphics,
        ) == Some(AppState::MainMenu),
        state == AppState::Paused && edit && graphics ==> spec_transition(
            state,
            esc,
            true,
            edit,
            graphics,
        ) == Some(AppState::Editing),
{
}

/// Whether the game runs with graphics matters only for the editor: two
/// frames with the same keys that differ only in it lead to the same screen
/// unless one of them opens the editor.
pub proof fn lemma_graphics_only_gates_the_editor(
    state: AppState,
    esc: bool,
    enter: bool,
    edit: bool,
)
    ensures
        spec_transition(state, esc, enter, edit, true) != spec_transition(
            state,
            esc,
            enter,
            edit,
            false,
        ) ==> spec_transition(state, esc, enter, edit, true) == Some(AppState::Editing),
{
}

/// Esc alone pauses and resumes the game and toggles the death pause,
/// whether or not the game runs with graphics; the editor key alone leaves
/// the editor for the game.
pub proof fn lemma_single_keys(graphics: bool)
    ensures
        spec_transition(AppState::Playing, true, false, false, graphics) == Some(AppState::Paused),
        spec_transition(AppState::Paused, true, false, false, graphics) == Some(AppState::Playing),
        spec_transition(AppState::Dead, true, false, false, graphics) == Some(AppState::DeathPaused),
        spec_transition(AppState::DeathPaused, true, false, false, graphics) == Some(AppState::Dead),
        spec_transition(AppState::Editing, false, false, true, graphics) == Some(AppState::Playing),
        spec_transition(AppState::Playing, false, false, false, graphics) == None::<AppState>,
{
}

} // verus!
