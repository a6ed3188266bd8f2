//! The actions keys are bound to, and the commands that leave a view for
//! the application to carry out.

use vstd::prelude::*;

verus! {

/// What a key asks for.
#[derive(Clone, Copy, Debug, PartialEq, Eq, Structural)]
pub enum Action {
    Quit,
    Refresh,
    MoveUp,
    MoveDown,
    PageUp,
    PageDown,
    JumpTop,
    JumpBottom,
    ToggleHiddenGroup,
    ToggleSelection,
    ToggleOnlySelected,
    ToggleStarredSelected,
    ToggleHiddenSelected,
    StartSearch,
    ClearSearch,
    SearchFuzzy,
    SearchSubstring,
    SearchRegex,
    ToggleHelpDetails,
    ToggleGantt,
    GanttZoomIn,
    GanttZoomOut,
    GanttZoomFit,
    GanttScrollLeft,
    GanttScrollRight,
    GanttAddColumn,
    GanttRemoveColumn,
    GanttToday,
    GanttOpenOrder,
    GanttOrderMoveUp,
    GanttOrderMoveDown,
    GanttOrderMoveTop,
    GanttOrderMoveBottom,
    GanttOrderCommit,
    GanttOrderCancel,
    ResizeTopPaneUp,
    ResizeTopPaneDown,
    MinimizeTopPane,
    MaximizeTopPane,
    RestoreTopPane,
    SetProjectMode,
    SetFilterMode,
    SetTaskMode,
    SetGanttMode,
    ToggleTaskMode,
    ToggleTaskFilters,
    ScrollLeft,
    ScrollRight,
    BeginFilterEdit,
    FilterDoneEditing,
    FilterCancelEditing,
    FilterCaretLeft,
    FilterCaretRight,
    FilterMoveLabelLeft,
    FilterMoveLabelRight,
    FilterCycleLabelDown,
    FilterCycleLabelUp,
    FilterAddLabel,
    FilterDeleteLabel,
    CalendarCommit,
    CalendarClose,
    CalendarClear,
    CalendarJumpToStart,
    CalendarJumpToEnd,
    CalendarPrevDay,
    CalendarNextDay,
    CalendarPrevMonth,
    CalendarNextMonth,
    CalendarToday,
    FilterSetsToggle,
    FilterSetsPageBack,
    FilterSetsPageForward,
    /// Loads the saved entry at this place in the numbered window, from 1.
    FilterSetLoad(u8),
    FilterSetSave,
    FilterSetDelete,
    FilterSetCopyToNew,
    FilterSetNew,
    CancelTaskEdit,
    TaskEditCycleValue(i32),
    TaskEditClear,
    TextCaretWordBack,
    TextCaretWordForward,
    TextCaretStart,
    TextCaretEnd,
}

/// A key, as much of it as the session reads.
#[derive(Clone, Copy, Debug, PartialEq, Eq, Structural)]
pub enum KeyCode {
    Char(char),
    Backspace,
    Enter,
    Esc,
    Left,
    Right,
    /// Any other key.
    Other,
}

/// A key press: the key, and whether control or alt was held with it.
#[derive(Clone, Copy, Debug, PartialEq, Eq, Structural)]
pub struct KeyPress {
    pub code: KeyCode,
    pub ctrl: bool,
    pub alt: bool,
}

impl KeyPress {
    /// Whether control or alt was held, so that the key is a command
    /// rather than text.
    pub open spec fn spec_modified(&self) -> bool {
        self.ctrl || self.alt
    }

    /// Whether control or alt was held, so that the key is a command
    /// rather than text.
    #[verifier::when_used_as_spec(spec_modified)]
    pub fn modified(&self) -> (r: bool)
        ensures
            r == self.spec_modified(),
    {
        self.ctrl || self.alt
    }
}

/// What only the application can do.
#[derive(Clone, Copy, Debug, PartialEq, Eq, Structural)]
pub enum AppCommand {
    Quit,
    Refresh,
}

/// The command an action stands for, if it stands for one.
pub open spec fn command_of(action: Action) -> Option<AppCommand> {
    match action {
        Action::Quit => Some(AppCommand::Quit),
        Action::Refresh => Some(AppCommand::Refresh),
        _ => None,
    }
}

impl Action {
    /// The command this action stands for, if it stands for one.
    pub fn as_app_command(&self) -> (r: Option<AppCommand>)
        ensures
            r == command_of(*self),
    {
        match self {
            Action::Quit => Some(AppCommand::Quit),
            Action::Refresh => Some(AppCommand::Refresh),
            _ => None,
        }
    }
}

} // verus!
