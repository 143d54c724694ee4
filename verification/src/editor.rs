use vstd::prelude::*;
use vstd::string::StringExecFns;

verus! {

/// How many level versions the editor keeps for undo.
pub const HISTORY_LIMIT: usize = 100;

/// The message of an undo with nothing to undo.
pub const NO_PREVIOUS_LEVELS: &'static str = "there are no previous levels";

/// The message of a redo with nothing to redo.
pub const NO_REDO_LEVELS: &'static str = "there are no redo levels";

/// The stack after `truncate(position + 1)`: the versions up to the current one.
pub open spec fn kept_versions<T>(stack: Seq<T>, position: nat) -> Seq<T> {
    if position + 1 <= stack.len() {
        stack.take(position + 1 as int)
    } else {
        stack
    }
}

/// The history after recording `entry` (a copy of the level) on top of the
/// current version: later versions are dropped, and the oldest goes once
/// there are more than `HISTORY_LIMIT`.
pub open spec fn pushed_versions<T>(stack: Seq<T>, position: nat, entry: T) -> Seq<T> {
    let grown = kept_versions(stack, position).push(entry);
    if grown.len() > HISTORY_LIMIT {
        grown.drop_first()
    } else {
        grown
    }
}

/// Well-formed history: bounded, and the position names a version unless
/// there is none.
pub open spec fn history_wf<T>(stack: Seq<T>, position: nat) -> bool {
    &&& stack.len() <= HISTORY_LIMIT
    &&& stack.len() == 0 ==> position == 0
    &&& stack.len() > 0 ==> position < stack.len()
}

/// Undo and redo over the versions of a level being edited.
pub struct History<T> {
    stack: Vec<T>,
    position: usize,
}

impl<T> History<T> {
    #[verifier::type_invariant]
    spec fn inv(self) -> bool {
        history_wf(self.stack@, self.position as nat)
    }

    /// The recorded versions, oldest first.
    pub closed spec fn versions(self) -> Seq<T> {
        self.stack@
    }

    /// The index of the current version among `versions()`.
    pub closed spec fn position(self) -> nat {
        self.position as nat
    }
}

impl<T> History<T> {
    /// How many versions are recorded. Every history is well formed, so this
    /// also tells a caller that the position names a recorded version (unless
    /// there is none) and that at most `HISTORY_LIMIT` are kept.
    pub fn version_count(&self) -> (n: usize)
        ensures
            n == self.versions().len(),
            history_wf(self.versions(), self.position()),
    {
        proof {
            use_type_invariant(self);
        }
        self.stack.len()
    }
}

impl<T: Clone> History<T> {
    /// An empty history.
    pub fn new() -> (h: History<T>)
        ensures
            h.versions() == Seq::<T>::empty(),
            h.position() == 0,
            history_wf(h.versions(), h.position()),
    {
        History { stack: Vec::new(), position: 0 }
    }

    /// Starts over with `level` as the only version.
    pub fn reset(&mut self, level: &T)
        ensures
            final(self).versions().len() == 1,
            cloned(*level, final(self).versions()[0]),
            final(self).position() == 0,
            history_wf(final(self).versions(), final(self).position()),
    {
        *self = History { stack: Vec::new(), position: 0 };
        self.push(level);
    }

    /// Steps back to the previous version and copies it into `level`; fails,
    /// leaving everything as it was, when the current version is the first.
    pub fn undo(&mut self, level: &mut T) -> (r: Result<(), &'static str>)
        ensures
            old(self).position() == 0 ==> {
                &&& r matches Err(e) && e@ == NO_PREVIOUS_LEVELS@
                &&& final(self).versions() == old(self).versions()
                &&& final(self).position() == old(self).position()
                &&& *final(level) == *old(level)
            },
            old(self).position() > 0 ==> {
                &&& r is Ok
                &&& final(self).versions() == old(self).versions()
                &&& final(self).position() == old(self).position() - 1
                &&& cloned(old(self).versions()[final(self).position() as int], *final(level))
            },
            history_wf(final(self).versions(), final(self).position()),
    {
        proof {
            use_type_invariant(&*self);
        }
        if self.position == 0 {
            return Err(NO_PREVIOUS_LEVELS);
        }
        self.position = self.position - 1;
        *level = self.stack[self.position].clone();
        Ok(())
    }

    /// Steps forward to the next version and copies it into `level`; fails,
    /// leaving everything as it was, when the current version is the last.
    pub fn redo(&mut self, level: &mut T) -> (r: Result<(), &'static str>)
        ensures
            old(self).position() + 1 >= old(self).versions().len() ==> {
                &&& r matches Err(e) && e@ == NO_REDO_LEVELS@
                &&& final(self).versions() == old(self).versions()
                &&& final(self).position() == old(self).position()
                &&& *final(level) == *old(level)
            },
            old(self).position() + 1 < old(self).versions().len() ==> {
                &&& r is Ok
                &&& final(self).versions() == old(self).versions()
                &&& final(self).position() == old(self).position() + 1
                &&& cloned(old(self).versions()[final(self).position() as int], *final(level))
            },
            history_wf(final(self).versions(), final(self).position()),
    {
        proof {
            use_type_invariant(&*self);
        }
        if self.position + 1 >= self.stack.len() {
            return Err(NO_REDO_LEVELS);
        }
        self.position = self.position + 1;
        *level = self.stack[self.position].clone();
        Ok(())
    }

    /// Records a copy of `level` as the newest version, on top of the current
    /// one: the versions after the current one are dropped, and the oldest
    /// version goes once there are more than `HISTORY_LIMIT`.
    pub fn push(&mut self, level: &T)
        ensures
            cloned(*level, final(self).versions().last()),
            final(self).versions() == pushed_versions(
                old(self).versions(),
                old(self).position(),
                final(self).versions().last(),
            ),
            1 <= final(self).versions().len() <= HISTORY_LIMIT,
            final(self).position() == final(self).versions().len() - 1,
            history_wf(final(self).versions(), final(self).position()),
    {
        proof {
            use_type_invariant(&*self);
        }
        let ghost old_stack = self.stack@;
        let ghost old_position = self.position as nat;
        let keep = self.position + 1;
        let copy = level.clone();
        let mut taken = History { stack: Vec::new(), position: 0 };
        std::mem::swap(self, &mut taken);
        let mut stack = taken.stack;
        stack.truncate(keep);
        stack.push(copy);
        if stack.len() > HISTORY_LIMIT {
            stack.remove(0);
        }
        let position = stack.len() - 1;
        proof {
            assert(stack@ =~= pushed_versions(old_stack, old_position, stack@.last()));
        }
        *self = History { stack, position };
    }
}


/// Which way to move through the history.
#[derive(Clone, Copy, Debug, PartialEq, Eq, Structural)]
pub enum HistoryAction {
    Undo,
    Redo,
}

/// The level editor's state besides its window: the selected object, the
/// status line, whether there are unsaved or unrecorded edits, and the undo
/// history of the level being edited.
pub struct EditorState<T> {
    pub selected_object: Option<usize>,
    pub status: String,
    pub dirty: bool,
    pub refresh_pending: bool,
    pub history: History<T>,
    pub history_level: Option<usize>,
}

/// The selection once there are `object_count` objects: dropped if it no
/// longer names one.
pub open spec fn clamped_selection(selected: Option<usize>, object_count: usize) -> Option<usize> {
    match selected {
        Some(index) => if index >= object_count {
            None
        } else {
            Some(index)
        },
        None => None,
    }
}

/// Whether `selected` names one of `object_count` objects, or nothing.
pub open spec fn selection_in(selected: Option<usize>, object_count: usize) -> bool {
    match selected {
        Some(index) => index < object_count,
        None => true,
    }
}

/// The editor's selection always names an object of the level or nothing
/// after it is clamped, and clamping keeps a selection that does.
pub proof fn lemma_clamped_selection_in(selected: Option<usize>, object_count: usize)
    ensures
        selection_in(clamped_selection(selected, object_count), object_count),
        selection_in(selected, object_count) ==> clamped_selection(selected, object_count)
            == selected,
{
}

impl<T: Clone> EditorState<T> {
    /// The editor before it was ever opened.
    pub fn new() -> (e: EditorState<T>)
        ensures
            e.selected_object == None::<usize>,
            e.status@ == "editor closed"@,
            !e.dirty,
            !e.refresh_pending,
            e.history.versions() == Seq::<T>::empty(),
            e.history_level == None::<usize>,
    {
        EditorState {
            selected_object: None,
            status: String::from_str("editor closed"),
            dirty: false,
            refresh_pending: false,
            history: History::new(),
            history_level: None,
        }
    }

    /// Drops the selection if it no longer names one of `object_count` objects.
    pub fn clamp_selection(&mut self, object_count: usize)
        ensures
            selection_in(final(self).selected_object, object_count),
            final(self).selected_object == clamped_selection(
                old(self).selected_object,
                object_count,
            ),
            final(self).status == old(self).status,
            final(self).dirty == old(self).dirty,
            final(self).refresh_pending == old(self).refresh_pending,
            final(self).history == old(self).history,
            final(self).history_level == old(self).history_level,
    {
        if let Some(index) = self.selected_object {
            if index >= object_count {
                self.selected_object = None;
            }
        }
    }

    /// Starts a fresh history when the level being edited is another one than
    /// the history was kept for; the level counts as saved then.
    pub fn sync_history(&mut self, level: &T, current_level: Option<usize>)
        ensures
            old(self).history_level == current_level ==> *final(self) == *old(self),
            old(self).history_level != current_level ==> {
                &&& final(self).history.versions().len() == 1
                &&& cloned(*level, final(self).history.versions()[0])
                &&& final(self).history.position() == 0
                &&& final(self).history_level == current_level
                &&& !final(self).dirty
                &&& final(self).selected_object == old(self).selected_object
                &&& final(self).status == old(self).status
                &&& final(self).refresh_pending == old(self).refresh_pending
            },
    {
        if self.history_level != current_level {
            self.history.reset(level);
            self.history_level = current_level;
            self.dirty = false;
        }
    }

    /// Undoes or redoes one edit into `level`. On success the level counts as
    /// changed and unsaved, the status says `status`, a pending edit is
    /// dropped, the selection is clamped to the restored level's objects (as
    /// `object_count` counts them), and the world is to be refreshed (the
    /// result is `true`); on failure the status shows the reason and the
    /// result is `false`.
    pub fn apply_history<F: Fn(&T) -> usize>(
        &mut self,
        level: &mut T,
        action: HistoryAction,
        status: &str,
        object_count: F,
    ) -> (refresh: bool)
        requires
            forall|l: &T| #[trigger] object_count.requires((l,)),
        ensures
            ({
                let possible = match action {
                    HistoryAction::Undo => old(self).history.position() > 0,
                    HistoryAction::Redo => old(self).history.position() + 1 < old(
                        self,
                    ).history.versions().len(),
                };
                let moved: int = match action {
                    HistoryAction::Undo => old(self).history.position() - 1,
                    HistoryAction::Redo => old(self).history.position() + 1 as int,
                };
                &&& refresh == possible
                &&& final(self).history.versions() == old(self).history.versions()
                &&& final(self).history_level == old(self).history_level
                &&& possible ==> {
                    &&& exists|n: usize|
                        #[trigger] object_count.ensures((&*final(level),), n)
                            && final(self).selected_object == clamped_selection(
                            old(self).selected_object,
                            n,
                        ) && selection_in(final(self).selected_object, n)
                    &&& final(self).history.position() == moved
                    &&& cloned(old(self).history.versions()[moved], *final(level))
                    &&& final(self).dirty
                    &&& final(self).status@ == status@
                    &&& !final(self).refresh_pending
                }
                &&& !possible ==> {
                    &&& final(self).selected_object == old(self).selected_object
                    &&& final(self).history.position() == old(self).history.position()
                    &&& *final(level) == *old(level)
                    &&& final(self).dirty == old(self).dirty
                    &&& final(self).refresh_pending == old(self).refresh_pending
                    &&& final(self).status@ == match action {
                        HistoryAction::Undo => NO_PREVIOUS_LEVELS@,
                        HistoryAction::Redo => NO_REDO_LEVELS@,
                    }
                }
            }),
    {
        let result = match action {
            HistoryAction::Undo => self.history.undo(level),
            HistoryAction::Redo => self.history.redo(level),
        };
        match result {
            Ok(()) => {
                let count = object_count(&*level);
                self.clamp_selection(count);
                self.dirty = true;
                self.status = String::from_str(status);
                self.refresh_pending = false;
                true
            },
            Err(err) => {
                self.status = String::from_str(err);
                false
            },
        }
    }

    /// Records an edit that was waiting, if any: the level goes into the
    /// history and the world is to be refreshed (the result says so).
    pub fn finish_pending_edit(&mut self, level: &T) -> (refresh: bool)
        ensures
            refresh == old(self).refresh_pending,
            !final(self).refresh_pending,
            final(self).selected_object == old(self).selected_object,
            final(self).status == old(self).status,
            final(self).dirty == old(self).dirty,
            final(self).history_level == old(self).history_level,
            !old(self).refresh_pending ==> final(self).history == old(self).history,
            old(self).refresh_pending ==> {
                &&& cloned(*level, final(self).history.versions().last())
                &&& final(self).history.versions() == pushed_versions(
                    old(self).history.versions(),
                    old(self).history.position(),
                    final(self).history.versions().last(),
                )
                &&& final(self).history.position() == final(self).history.versions().len() - 1
            },
    {
        if !self.refresh_pending {
            return false;
        }
        self.history.push(level);
        self.refresh_pending = false;
        true
    }

    /// Notes that the level data was edited, leaving `object_count` objects:
    /// the selection is clamped, the level is unsaved, and the edit waits to
    /// be recorded.
    pub fn mark_edited(&mut self, object_count: usize)
        ensures
            selection_in(final(self).selected_object, object_count),
            final(self).selected_object == clamped_selection(
                old(self).selected_object,
                object_count,
            ),
            final(self).dirty,
            final(self).refresh_pending,
            final(self).status@ == "edited level data"@,
            final(self).history == old(self).history,
            final(self).history_level == old(self).history_level,
    {
        self.clamp_selection(object_count);
        self.dirty = true;
        self.status = String::from_str("edited level data");
        self.refresh_pending = true;
    }

    /// The object to delete on request, if the selection names one of
    /// `object_count` objects; the selection is then cleared.
    pub fn take_selected_for_delete(&mut self, object_count: usize) -> (index: Option<usize>)
        ensures
            index == (match old(self).selected_object {
                Some(i) => if i < object_count {
                    Some(i)
                } else {
                    None
                },
                None => None,
            }),
            index is Some ==> final(self).selected_object == None::<usize>,
            index is None ==> final(self).selected_object == old(self).selected_object,
            final(self).status == old(self).status,
            final(self).dirty == old(self).dirty,
            final(self).refresh_pending == old(self).refresh_pending,
            final(self).history == old(self).history,
    {
        match self.selected_object {
            Some(i) => if i < object_count {
                self.selected_object = None;
                Some(i)
            } else {
                None
            },
            None => None,
        }
    }

    /// Records the outcome of saving the level: saved to `path`, or failed
    /// with a message.
    pub fn record_save(&mut self, outcome: Result<String, String>)
        ensures
            match outcome {
                Ok(path) => {
                    &&& !final(self).dirty
                    &&& final(self).status@ == "saved "@ + path@
                },
                Err(err) => {
                    &&& final(self).dirty == old(self).dirty
                    &&& final(self).status@ == "save failed: "@ + err@
                },
            },
            final(self).selected_object == old(self).selected_object,
            final(self).refresh_pending == old(self).refresh_pending,
            final(self).history == old(self).history,
    {
        match outcome {
            Ok(path) => {
                self.dirty = false;
                let mut status = String::from_str("saved ");
                status.append(path.as_str());
                self.status = status;
            },
            Err(err) => {
                let mut status = String::from_str("save failed: ");
                status.append(err.as_str());
                self.status = status;
            },
        }
    }
}

/// The history step that this frame's undo and redo keys ask for: undo wins
/// when both are pressed.
pub open spec fn spec_history_request(undo: bool, redo: bool) -> Option<HistoryAction> {
    if undo {
        Some(HistoryAction::Undo)
    } else if redo {
        Some(HistoryAction::Redo)
    } else {
        None
    }
}

/// The history step that this frame's undo and redo keys ask for, if any.
/// A pending edit is recorded before such a step, so that it can be undone.
pub fn history_request(undo: bool, redo: bool) -> (action: Option<HistoryAction>)
    ensures
        action == spec_history_request(undo, redo),
        action is Some <==> (undo || redo),
{
    if undo {
        Some(HistoryAction::Undo)
    } else if redo {
        Some(HistoryAction::Redo)
    } else {
        None
    }
}

/// The status line after a successful history step.
pub fn history_status(action: HistoryAction) -> (status: &'static str)
    ensures
        status@ == match action {
            HistoryAction::Undo => "undid level edit"@,
            HistoryAction::Redo => "redid level edit"@,
        },
{
    match action {
        HistoryAction::Undo => "undid level edit",
        HistoryAction::Redo => "redid level edit",
    }
}

/// Whether a pending edit is recorded at the end of the frame: once the user
/// no longer edits interactively (types or drags), or when saving or closing.
pub fn records_pending_edit(
    editing_interactively: bool,
    save_clicked: bool,
    close_clicked: bool,
) -> (record: bool)
    ensures
        record == (!editing_interactively || save_clicked || close_clicked),
{
    !editing_interactively || save_clicked || close_clicked
}

/// What to do with the timer that tests the level once the editor window
/// has lost focus for a moment.
#[derive(Clone, Copy, Debug, PartialEq, Eq, Structural)]
pub enum FocusTimerCommand {
    /// Stop the timer: the window moved, or it got the focus back.
    Cancel,
    /// Start the timer anew: the window lost the focus.
    Start,
    /// Leave the timer as it is.
    Keep,
}

/// The timer command after this frame's window events: whether the editor
/// window moved, and the last focus change of the editor window, if any.
/// Moving the window wins over focus changes.
pub fn focus_timer_command(moved: bool, last_focus: Option<bool>) -> (command: FocusTimerCommand)
    ensures
        command == if moved {
            FocusTimerCommand::Cancel
        } else {
            match last_focus {
                Some(false) => FocusTimerCommand::Start,
                Some(true) => FocusTimerCommand::Cancel,
                None => FocusTimerCommand::Keep,
            }
        },
{
    if moved {
        return FocusTimerCommand::Cancel;
    }
    match last_focus {
        Some(false) => FocusTimerCommand::Start,
        Some(true) => FocusTimerCommand::Cancel,
        None => FocusTimerCommand::Keep,
    }
}

/// Recording a version keeps the history well formed, makes the new version
/// current, and leaves nothing to redo.
pub proof fn lemma_push_wf<T>(stack: Seq<T>, position: nat, entry: T)
    requires
        history_wf(stack, position),
    ensures
        ({
            let pushed = pushed_versions(stack, position, entry);
            &&& pushed.len() > 0
            &&& history_wf(pushed, (pushed.len() - 1) as nat)
            &&& pushed.last() == entry
        }),
{
}

/// A history in use: well formed, and holding at least one version.
pub open spec fn history_in_use<T>(stack: Seq<T>, position: nat) -> bool {
    &&& history_wf(stack, position)
    &&& stack.len() >= 1
}

/// Once reset or pushed to, a history keeps between one and `HISTORY_LIMIT`
/// versions with its position on one of them: a reset starts it so, and
/// every push, undo and redo keeps it so.
pub proof fn lemma_history_stays_in_use<T>(stack: Seq<T>, position: nat, entry: T)
    ensures
        history_in_use(pushed_versions(Seq::<T>::empty(), 0, entry), 0),
        history_wf(stack, position) ==> history_in_use(
            pushed_versions(stack, position, entry),
            (pushed_versions(stack, position, entry).len() - 1) as nat,
        ),
        history_in_use(stack, position) && position > 0 ==> history_in_use(
            stack,
            (position - 1) as nat,
        ),
        history_in_use(stack, position) && position + 1 < stack.len() ==> history_in_use(
            stack,
            position + 1,
        ),
{
    lemma_reset_is_a_single_version(entry);
    if history_wf(stack, position) {
        lemma_push_wf(stack, position, entry);
    }
}

/// Undo right after recording a version goes back to the version that was
/// current before it.
pub proof fn lemma_undo_after_push<T>(stack: Seq<T>, position: nat, entry: T)
    requires
        history_wf(stack, position),
        stack.len() > 0,
    ensures
        ({
            let pushed = pushed_versions(stack, position, entry);
            &&& pushed.len() >= 2
            &&& pushed[pushed.len() - 2] == stack[position as int]
        }),
{
    let kept = kept_versions(stack, position);
    assert(kept.len() == position + 1);
    assert(kept.push(entry)[position as int] == stack[position as int]);
}

/// Recording a version below the top drops the versions that could have been
/// redone: the history becomes the versions up to the current one, then the
/// new one (less the oldest, past the limit).
pub proof fn lemma_push_discards_redo<T>(stack: Seq<T>, position: nat, entry: T)
    requires
        history_wf(stack, position),
        stack.len() > 0,
        position + 1 < HISTORY_LIMIT,
    ensures
        pushed_versions(stack, position, entry) == stack.take(position + 1 as int).push(entry),
{
}

/// Undo followed by redo comes back to the version that was current: from a
/// history at position `p > 0`, undo moves to `p - 1` over the same
/// versions, where redo is possible and moves back to `p`, restoring a copy
/// of the version at `p`.
pub proof fn lemma_redo_after_undo<T>(history: History<T>)
    requires
        history_wf(history.versions(), history.position()),
        history.position() > 0,
    ensures
        ({
            let undone = (history.position() - 1) as nat;
            &&& history_wf(history.versions(), undone)
            &&& undone + 1 < history.versions().len()
            &&& undone + 1 == history.position()
        }),
{
}

/// A history that was just reset has nothing to undo and nothing to redo.
pub proof fn lemma_reset_is_a_single_version<T>(entry: T)
    ensures
        history_wf(seq![entry], 0),
        pushed_versions(Seq::<T>::empty(), 0, entry) == seq![entry],
{
    assert(kept_versions(Seq::<T>::empty(), 0) =~= Seq::<T>::empty());
    assert(Seq::<T>::empty().push(entry) =~= seq![entry]);
}


impl<T: Clone> Default for History<T> {
    /// An empty history.
    fn default() -> (h: History<T>)
        ensures
            h.versions() == Seq::<T>::empty(),
            h.position() == 0,
    {
        History::new()
    }
}

impl<T: Clone> Default for EditorState<T> {
    /// The editor before it was ever opened.
    fn default() -> (e: EditorState<T>)
        ensures
            e.selected_object == None::<usize>,
            e.status@ == "editor closed"@,
            !e.dirty,
            !e.refresh_pending,
            e.history.versions() == Seq::<T>::empty(),
            e.history_level == None::<usize>,
    {
        EditorState::new()
    }
}

} // verus!
