//! Screens, menu entries and cursor movement of the terminal interface.

use vstd::prelude::*;

verus! {

/// The screens of the terminal interface.
#[derive(Debug, Clone, Copy, PartialEq, Eq, Structural)]
pub enum CurrentScreen {
    SuggestingDirs,
    Main,
    Editing,
    Processing,
    Finished,
    Exiting,
}

/// The entries of the main menu.
#[derive(Debug, Clone, Copy, PartialEq, Eq, Structural)]
pub enum MenuItem {
    Model,
    InputPath,
    Threshold,
    BatchSize,
    ShowAsciiArt,
    Start,
}

impl MenuItem {
    /// The menu's entries, top to bottom.
    pub fn all() -> (r: Vec<MenuItem>)
        ensures
            r@ == seq![
                MenuItem::Model,
                MenuItem::InputPath,
                MenuItem::Threshold,
                MenuItem::BatchSize,
                MenuItem::ShowAsciiArt,
                MenuItem::Start,
            ],
    {
        vec![
            MenuItem::Model,
            MenuItem::InputPath,
            MenuItem::Threshold,
            MenuItem::BatchSize,
            MenuItem::ShowAsciiArt,
            MenuItem::Start,
        ]
    }
}

/// Cursor one line up, stopping at the top.
pub fn cursor_up(index: usize) -> (r: usize)
    ensures
        r == if index == 0 {
            0
        } else {
            index - 1
        },
{
    if index == 0 {
        0
    } else {
        index - 1
    }
}

/// Cursor one line down in a list of `len` lines, stopping at the last one.
pub fn cursor_down(index: usize, len: usize) -> (r: usize)
    ensures
        len == 0 ==> r == index,
        len > 0 ==> r as int == if index + 1 < len {
            index + 1
        } else {
            len - 1
        },
{
    if len == 0 {
        index
    } else if index < len - 1 {
        index + 1
    } else {
        len - 1
    }
}

/// A key press, as far as the interface reads it.
#[derive(Debug, Clone, Copy, PartialEq, Eq, Structural)]
pub enum Key {
    Up,
    Down,
    Left,
    Right,
    Enter,
    Esc,
    Backspace,
    Char(char),
}

/// What the interface does in response to a key, beside moving between screens.
#[derive(Debug, Clone, Copy, PartialEq, Eq, Structural)]
pub enum Action {
    Nothing,
    ScrollLeft,
    ScrollRight,
    /// Select or unselect the suggested directory at this index.
    ToggleDir(usize),
    /// Take the first selected directory as input path.
    ConfirmDirs,
    StartProcessing,
    StopProcessing,
    CycleModel,
    ToggleAsciiArt,
    /// Open the editor on this entry, filled with its current value.
    StartEditing(MenuItem),
    TypeChar(char),
    DeleteChar,
    /// Store the edited text into the entry being edited.
    FinishEditing(MenuItem),
    CancelEditing,
    /// Leave the finished screen and reset the status.
    Acknowledge,
}

/// The navigation state of the interface.
#[derive(Debug, Clone, Copy, PartialEq, Eq, Structural)]
pub struct ScreenState {
    pub screen: CurrentScreen,
    pub menu_index: usize,
    pub suggestion_index: usize,
    pub editing: Option<MenuItem>,
}

pub open spec fn spec_up(i: usize) -> usize {
    if i == 0 {
        0
    } else {
        (i - 1) as usize
    }
}

pub open spec fn spec_down(i: usize, len: nat) -> usize {
    if len == 0 {
        i
    } else if i + 1 < len {
        (i + 1) as usize
    } else {
        (len - 1) as usize
    }
}

/// The menu entry at a line of the menu.
pub open spec fn menu_entry(i: nat) -> MenuItem {
    if i == 0 {
        MenuItem::Model
    } else if i == 1 {
        MenuItem::InputPath
    } else if i == 2 {
        MenuItem::Threshold
    } else if i == 3 {
        MenuItem::BatchSize
    } else if i == 4 {
        MenuItem::ShowAsciiArt
    } else {
        MenuItem::Start
    }
}

/// The state and action after `key`, given how many directories are suggested and
/// selected. Left/`a` and Right/`d` scroll the preview on every screen; the rest
/// depends on the screen.
pub open spec fn on_key_spec(s: ScreenState, key: Key, suggested: nat, selected: nat) -> (
    ScreenState,
    Action,
) {
    if key == Key::Left || key == Key::Char('a') {
        (s, Action::ScrollLeft)
    } else if key == Key::Right || key == Key::Char('d') {
        (s, Action::ScrollRight)
    } else {
        match s.screen {
            CurrentScreen::SuggestingDirs => if key == Key::Up || key == Key::Char('k') {
                (ScreenState { suggestion_index: spec_up(s.suggestion_index), ..s }, Action::Nothing)
            } else if key == Key::Down || key == Key::Char('j') {
                (
                    ScreenState { suggestion_index: spec_down(s.suggestion_index, suggested), ..s },
                    Action::Nothing,
                )
            } else if key == Key::Char(' ') {
                (s, if s.suggestion_index < suggested {
                    Action::ToggleDir(s.suggestion_index)
                } else {
                    Action::Nothing
                })
            } else if key == Key::Enter && selected > 0 {
                (ScreenState { screen: CurrentScreen::Main, ..s }, Action::ConfirmDirs)
            } else if key == Key::Char('q') {
                (ScreenState { screen: CurrentScreen::Exiting, ..s }, Action::Nothing)
            } else {
                (s, Action::Nothing)
            },
            CurrentScreen::Main => if key == Key::Char('q') {
                (ScreenState { screen: CurrentScreen::Exiting, ..s }, Action::Nothing)
            } else if key == Key::Up || key == Key::Char('k') {
                (ScreenState { menu_index: spec_up(s.menu_index), ..s }, Action::Nothing)
            } else if key == Key::Down || key == Key::Char('j') {
                (ScreenState { menu_index: spec_down(s.menu_index, 6), ..s }, Action::Nothing)
            } else if key == Key::Enter {
                let item = menu_entry(s.menu_index as nat);
                if item == MenuItem::Start {
                    (ScreenState { screen: CurrentScreen::Processing, ..s }, Action::StartProcessing)
                } else if item == MenuItem::Model {
                    (s, Action::CycleModel)
                } else if item == MenuItem::ShowAsciiArt {
                    (s, Action::ToggleAsciiArt)
                } else {
                    (
                        ScreenState { screen: CurrentScreen::Editing, editing: Some(item), ..s },
                        Action::StartEditing(item),
                    )
                }
            } else {
                (s, Action::Nothing)
            },
            CurrentScreen::Editing => match key {
                Key::Enter => (
                    ScreenState { screen: CurrentScreen::Main, editing: None, ..s },
                    match s.editing {
                        Some(item) => Action::FinishEditing(item),
                        None => Action::Nothing,
                    },
                ),
                Key::Char(c) => (s, Action::TypeChar(c)),
                Key::Backspace => (s, Action::DeleteChar),
                Key::Esc => (
                    ScreenState { screen: CurrentScreen::Main, editing: None, ..s },
                    Action::CancelEditing,
                ),
                _ => (s, Action::Nothing),
            },
            CurrentScreen::Processing => if key == Key::Char('q') {
                (ScreenState { screen: CurrentScreen::Main, ..s }, Action::StopProcessing)
            } else {
                (s, Action::Nothing)
            },
            CurrentScreen::Finished => if key == Key::Enter {
                (ScreenState { screen: CurrentScreen::Main, ..s }, Action::Acknowledge)
            } else {
                (s, Action::Nothing)
            },
            CurrentScreen::Exiting => (s, Action::Nothing),
        }
    }
}

impl ScreenState {
    /// The state at start: choosing directories, cursors at the top, nothing edited.
    pub fn new() -> (r: ScreenState)
        ensures
            r == (ScreenState {
                screen: CurrentScreen::SuggestingDirs,
                menu_index: 0,
                suggestion_index: 0,
                editing: None,
            }),
    {
        ScreenState {
            screen: CurrentScreen::SuggestingDirs,
            menu_index: 0,
            suggestion_index: 0,
            editing: None,
        }
    }

    /// Applies a key press; returns what the interface has to do. `suggested` and
    /// `selected` are the numbers of suggested and selected directories.
    pub fn on_key(&mut self, key: Key, suggested: usize, selected: usize) -> (a: Action)
        ensures
            (*final(self), a) == on_key_spec(*old(self), key, suggested as nat, selected as nat),
    {
        if key == Key::Left || key == Key::Char('a') {
            return Action::ScrollLeft;
        }
        if key == Key::Right || key == Key::Char('d') {
            return Action::ScrollRight;
        }
        match self.screen {
            CurrentScreen::SuggestingDirs => {
                if key == Key::Up || key == Key::Char('k') {
                    self.suggestion_index = cursor_up(self.suggestion_index);
                    Action::Nothing
                } else if key == Key::Down || key == Key::Char('j') {
                    self.suggestion_index = cursor_down(self.suggestion_index, suggested);
                    Action::Nothing
                } else if key == Key::Char(' ') {
                    if self.suggestion_index < suggested {
                        Action::ToggleDir(self.suggestion_index)
                    } else {
                        Action::Nothing
                    }
                } else if key == Key::Enter && selected > 0 {
                    self.screen = CurrentScreen::Main;
                    Action::ConfirmDirs
                } else if key == Key::Char('q') {
                    self.screen = CurrentScreen::Exiting;
                    Action::Nothing
                } else {
                    Action::Nothing
                }
            },
            CurrentScreen::Main => {
                if key == Key::Char('q') {
                    self.screen = CurrentScreen::Exiting;
                    Action::Nothing
                } else if key == Key::Up || key == Key::Char('k') {
                    self.menu_index = cursor_up(self.menu_index);
                    Action::Nothing
                } else if key == Key::Down || key == Key::Char('j') {
                    self.menu_index = cursor_down(self.menu_index, 6);
                    Action::Nothing
                } else if key == Key::Enter {
                    let item = menu_item_at(self.menu_index);
                    if item == MenuItem::Start {
                        self.screen = CurrentScreen::Processing;
                        Action::StartProcessing
                    } else if item == MenuItem::Model {
                        Action::CycleModel
                    } else if item == MenuItem::ShowAsciiArt {
                        Action::ToggleAsciiArt
                    } else {
                        self.screen = CurrentScreen::Editing;
                        self.editing = Some(item);
                        Action::StartEditing(item)
                    }
                } else {
                    Action::Nothing
                }
            },
            CurrentScreen::Editing => match key {
                Key::Enter => {
                    let a = match self.editing {
                        Some(item) => Action::FinishEditing(item),
                        None => Action::Nothing,
                    };
                    self.screen = CurrentScreen::Main;
                    self.editing = None;
                    a
                },
                Key::Char(c) => Action::TypeChar(c),
                Key::Backspace => Action::DeleteChar,
                Key::Esc => {
                    self.screen = CurrentScreen::Main;
                    self.editing = None;
                    Action::CancelEditing
                },
                _ => Action::Nothing,
            },
            CurrentScreen::Processing => {
                if key == Key::Char('q') {
                    self.screen = CurrentScreen::Main;
                    Action::StopProcessing
                } else {
                    Action::Nothing
                }
            },
            CurrentScreen::Finished => {
                if key == Key::Enter {
                    self.screen = CurrentScreen::Main;
                    Action::Acknowledge
                } else {
                    Action::Nothing
                }
            },
            CurrentScreen::Exiting => Action::Nothing,
        }
    }
}

/// The menu entry at a line of the menu; lines past the end give the last entry.
pub fn menu_item_at(i: usize) -> (r: MenuItem)
    ensures
        r == menu_entry(i as nat),
{
    if i == 0 {
        MenuItem::Model
    } else if i == 1 {
        MenuItem::InputPath
    } else if i == 2 {
        MenuItem::Threshold
    } else if i == 3 {
        MenuItem::BatchSize
    } else if i == 4 {
        MenuItem::ShowAsciiArt
    } else {
        MenuItem::Start
    }
}

/// The menu cursor never leaves the menu, and once the interface is exiting no key
/// changes its state.
pub proof fn navigation_stays_in_bounds(s: ScreenState, key: Key, suggested: nat, selected: nat)
    requires
        s.menu_index < 6,
    ensures
        on_key_spec(s, key, suggested, selected).0.menu_index < 6,
        s.screen == CurrentScreen::Exiting ==> on_key_spec(s, key, suggested, selected).0 == s,
{
}

/// Number of log lines that the interface keeps.
pub const LOG_CAPACITY: usize = 100;

/// Appends a log line and drops the oldest one when more than `LOG_CAPACITY` are held.
pub fn push_log(logs: &mut Vec<String>, line: String)
    ensures
        old(logs)@.len() < LOG_CAPACITY ==> final(logs)@ == old(logs)@.push(line),
        old(logs)@.len() >= LOG_CAPACITY ==> final(logs)@ == old(logs)@.push(line).skip(1),
{
    logs.push(line);
    if logs.len() > LOG_CAPACITY {
        logs.remove(0);
        assert(logs@ =~= old(logs)@.push(line).skip(1));
    }
}

} // verus!
