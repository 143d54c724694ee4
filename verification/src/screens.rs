use vstd::prelude::*;
use vstd::string::StringExecFns;
use crate::state::AppState;

verus! {

/// The details shown when no level is selected.
pub const NO_LEVEL_DETAILS: &'static str = "no levels found, although, this should never be reached";

/// The lines of the pause menu on `screen`: the title, a blank line, how to
/// resume, how to open the editor (only when the game itself is paused and
/// runs with graphics), and how to leave for the main menu.
pub open spec fn spec_pause_menu_lines(screen: AppState, graphics: bool) -> Seq<Seq<char>> {
    if screen == AppState::Paused && graphics {
        seq!["Paused"@, ""@, "[Esc] resume"@, "[E] editor"@, "[Enter] main menu"@]
    } else {
        seq!["Paused"@, ""@, "[Esc] resume"@, "[Enter] main menu"@]
    }
}

/// The lines of the pause menu shown on `screen` (a pause or a death pause).
pub fn pause_menu_lines(screen: AppState, graphics: bool) -> (lines: Vec<&'static str>)
    ensures
        lines@.map_values(|l: &'static str| l@) == spec_pause_menu_lines(screen, graphics),
{
    let mut lines: Vec<&'static str> = Vec::new();
    lines.push("Paused");
    lines.push("");
    lines.push("[Esc] resume");
    if screen == AppState::Paused && graphics {
        lines.push("[E] editor");
    }
    lines.push("[Enter] main menu");
    proof {
        assert(lines@.map_values(|l: &'static str| l@) =~= spec_pause_menu_lines(screen, graphics));
    }
    lines
}

/// The entry of the level list for a level named `name`: the name, indented
/// by two spaces.
pub fn level_list_label(name: &str) -> (label: String)
    ensures
        label@ == "  "@ + name@,
{
    let mut label = String::from_str("  ");
    label.append(name);
    label
}

/// The entry that the level list highlights: the selected one, or none when
/// the list of `count` levels is empty.
pub fn list_selection(selected: usize, count: usize) -> (highlighted: Option<usize>)
    ensures
        highlighted == if count > 0 {
            Some(selected)
        } else {
            None
        },
{
    if count > 0 {
        Some(selected)
    } else {
        None
    }
}

/// The text of the details panel: the description of the selected level,
/// or a note when there is no level to describe.
pub fn details_text<'a>(description: Option<&'a str>) -> (text: &'a str)
    ensures
        text@ == match description {
            Some(d) => d@,
            None => NO_LEVEL_DETAILS@,
        },
{
    match description {
        Some(d) => d,
        None => NO_LEVEL_DETAILS,
    }
}

/// The title of the level list's main menu for a title area `width` cells
/// wide: the name in plain text below 34 cells, else the name drawn in five
/// lines of ASCII art.
pub open spec fn spec_main_menu_title(width: u16) -> Seq<Seq<char>> {
    if width < 34 {
        seq!["Term Dash"@]
    } else {
        seq![
            " _____                     ____            _"@,
            "|_   _|__ _ __ _ __ ___   |  _ \\  __ _ ___| |__"@,
            "  | |/ _ \\ '__| '_ ` _ \\  | | | |/ _` / __| '_ \\\\"@,
            "  | |  __/ |  | | | | | | | |_| | (_| \\__ \\ | | |"@,
            "  |_|\\___|_|  |_| |_| |_| |____/ \\__,_|___/_| |_|"@,
        ]
    }
}

/// The lines of the level list's title, for a title area `width` cells wide.
pub fn main_menu_title(width: u16) -> (lines: Vec<&'static str>)
    ensures
        lines@.map_values(|l: &'static str| l@) == spec_main_menu_title(width),
{
    let mut lines: Vec<&'static str> = Vec::new();
    if width < 34 {
        lines.push("Term Dash");
    } else {
        lines.push(" _____                     ____            _");
        lines.push("|_   _|__ _ __ _ __ ___   |  _ \\  __ _ ___| |__");
        lines.push("  | |/ _ \\ '__| '_ ` _ \\  | | | |/ _` / __| '_ \\\\");
        lines.push("  | |  __/ |  | | | | | | | |_| | (_| \\__ \\ | | |");
        lines.push("  |_|\\___|_|  |_| |_| |_| |____/ \\__,_|___/_| |_|");
    }
    proof {
        assert(lines@.map_values(|l: &'static str| l@) =~= spec_main_menu_title(width));
    }
    lines
}

} // verus!
