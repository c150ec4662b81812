//! Key bindings: which command each key stands for in each mode.
use vstd::prelude::*;
use crate::app::{App, Mode};
use crate::extensions::Extension;
use crate::linear::Issue;

verus! {

/// A key press, as far as the bindings tell keys apart.
#[derive(Clone, Copy, Debug, PartialEq, Eq, Structural)]
pub enum Key {
    Char(char),
    Esc,
    Enter,
    Up,
    Down,
    PageUp,
    PageDown,
    Backspace,
    Other,
}

/// What a key press asks for.
#[derive(Clone, Copy, Debug, PartialEq, Eq, Structural)]
pub enum Command {
    Nothing,
    Quit,
    SelectNext,
    SelectPrev,
    OpenFilterMenu,
    ToggleSort,
    OpenDetail,
    /// Reload the issues from Linear.
    Refresh,
    /// Fetch the selected issue's team's states and open the status picker.
    OpenStatusPicker,
    OpenNewIssue,
    /// Run the extension bound to this key, if any.
    LaunchExtension(char),
    CloseDetail,
    /// In the detail view, show the next issue of the list.
    NextIssue,
    /// In the detail view, show the previous issue of the list.
    PrevIssue,
    ScrollDetail(i32),
    StatusPickerCancel,
    StatusPickerMove(i32),
    /// Submit the picked status.
    StatusPickerConfirm,
    NewIssueCancel,
    NewIssueBackspace,
    /// Create an issue with the typed title.
    NewIssueConfirm,
    NewIssueInput(char),
    CloseExtensionOutput,
    CancelExtension,
    ScrollExtensionOutput(i32),
    FilterMenuCancel,
    FilterMenuSelect,
    FilterMenuMove(i32),
    ClearFilters,
    FilterCancel,
    FilterConfirm,
    FilterToggle,
    FilterMove(i32),
}

/// Whether `key` is the character `c`.
pub open spec fn is_char(key: Key, c: char) -> bool {
    key == Key::Char(c)
}

/// The command `key` stands for in `mode`; `has_project` tells whether a
/// project mapping is active (creating issues needs one).
pub open spec fn command_for(mode: &Mode, has_project: bool, key: Key) -> Command {
    match mode {
        Mode::Normal => if is_char(key, 'q') || key == Key::Esc {
            Command::Quit
        } else if is_char(key, 'j') || key == Key::Down {
            Command::SelectNext
        } else if is_char(key, 'k') || key == Key::Up {
            Command::SelectPrev
        } else if is_char(key, 'f') {
            Command::OpenFilterMenu
        } else if is_char(key, 'o') {
            Command::ToggleSort
        } else if key == Key::Enter || is_char(key, 'l') {
            Command::OpenDetail
        } else if is_char(key, 'r') {
            Command::Refresh
        } else if is_char(key, 's') {
            Command::OpenStatusPicker
        } else if is_char(key, 'n') {
            if has_project {
                Command::OpenNewIssue
            } else {
                Command::Nothing
            }
        } else if let Key::Char(c) = key {
            Command::LaunchExtension(c)
        } else {
            Command::Nothing
        },
        Mode::Detail => if key == Key::Esc || key == Key::Enter || is_char(key, 'q') || is_char(
            key,
            'h',
        ) {
            Command::CloseDetail
        } else if is_char(key, 'j') || key == Key::Down {
            Command::NextIssue
        } else if is_char(key, 'k') || key == Key::Up {
            Command::PrevIssue
        } else if key == Key::PageDown || is_char(key, 'd') {
            Command::ScrollDetail(10i32)
        } else if key == Key::PageUp || is_char(key, 'u') {
            Command::ScrollDetail(-10i32)
        } else if is_char(key, 'g') {
            Command::ScrollDetail(i32::MIN)
        } else if is_char(key, 'G') {
            Command::ScrollDetail(i32::MAX)
        } else if is_char(key, 's') {
            Command::OpenStatusPicker
        } else if let Key::Char(c) = key {
            Command::LaunchExtension(c)
        } else {
            Command::Nothing
        },
        Mode::StatusPicker { .. } => if key == Key::Esc {
            Command::StatusPickerCancel
        } else if is_char(key, 'j') || key == Key::Down {
            Command::StatusPickerMove(1i32)
        } else if is_char(key, 'k') || key == Key::Up {
            Command::StatusPickerMove(-1i32)
        } else if key == Key::Enter {
            Command::StatusPickerConfirm
        } else {
            Command::Nothing
        },
        Mode::NewIssueTitle { .. } => if key == Key::Esc {
            Command::NewIssueCancel
        } else if key == Key::Backspace {
            Command::NewIssueBackspace
        } else if key == Key::Enter {
            Command::NewIssueConfirm
        } else if let Key::Char(c) = key {
            Command::NewIssueInput(c)
        } else {
            Command::Nothing
        },
        Mode::ExtensionOutput { .. } => if key == Key::Esc || is_char(key, 'q') {
            Command::CloseExtensionOutput
        } else if is_char(key, 'K') {
            Command::CancelExtension
        } else if is_char(key, 'j') || key == Key::Down {
            Command::ScrollExtensionOutput(1i32)
        } else if is_char(key, 'k') || key == Key::Up {
            Command::ScrollExtensionOutput(-1i32)
        } else if key == Key::PageDown || is_char(key, 'd') {
            Command::ScrollExtensionOutput(10i32)
        } else if key == Key::PageUp || is_char(key, 'u') {
            Command::ScrollExtensionOutput(-10i32)
        } else if is_char(key, 'g') {
            Command::ScrollExtensionOutput(i32::MIN)
        } else if is_char(key, 'G') {
            Command::ScrollExtensionOutput(i32::MAX)
        } else {
            Command::Nothing
        },
        Mode::FilterMenu { .. } => if key == Key::Esc {
            Command::FilterMenuCancel
        } else if key == Key::Enter {
            Command::FilterMenuSelect
        } else if is_char(key, 'j') || key == Key::Down {
            Command::FilterMenuMove(1i32)
        } else if is_char(key, 'k') || key == Key::Up {
            Command::FilterMenuMove(-1i32)
        } else if is_char(key, 'c') {
            Command::ClearFilters
        } else {
            Command::Nothing
        },
        Mode::Filter { .. } => if key == Key::Esc {
            Command::FilterCancel
        } else if key == Key::Enter {
            Command::FilterConfirm
        } else if is_char(key, ' ') {
            Command::FilterToggle
        } else if is_char(key, 'j') || key == Key::Down {
            Command::FilterMove(1i32)
        } else if is_char(key, 'k') || key == Key::Up {
            Command::FilterMove(-1i32)
        } else {
            Command::Nothing
        },
    }
}

fn is(key: Key, c: char) -> (r: bool)
    ensures
        r == is_char(key, c),
{
    match key {
        Key::Char(k) => k == c,
        _ => false,
    }
}

/// An extension to run: the extension, a copy of the selected issue, and
/// the active project's root (for `{project_root}`).
pub struct LaunchRequest {
    pub extension: Extension,
    pub issue: Issue,
    pub project_root: Option<String>,
}

impl App {
    /// The command `key` stands for in the current mode.
    pub fn key_command(&self, key: Key) -> (r: Command)
        ensures
            r == command_for(&self.mode, self.active_project is Some, key),
    {
        match &self.mode {
            Mode::Normal => if is(key, 'q') || key == Key::Esc {
                Command::Quit
            } else if is(key, 'j') || key == Key::Down {
                Command::SelectNext
            } else if is(key, 'k') || key == Key::Up {
                Command::SelectPrev
            } else if is(key, 'f') {
                Command::OpenFilterMenu
            } else if is(key, 'o') {
                Command::ToggleSort
            } else if key == Key::Enter || is(key, 'l') {
                Command::OpenDetail
            } else if is(key, 'r') {
                Command::Refresh
            } else if is(key, 's') {
                Command::OpenStatusPicker
            } else if is(key, 'n') {
                if self.active_project.is_some() {
                    Command::OpenNewIssue
                } else {
                    Command::Nothing
                }
            } else if let Key::Char(c) = key {
                Command::LaunchExtension(c)
            } else {
                Command::Nothing
            },
            Mode::Detail => if key == Key::Esc || key == Key::Enter || is(key, 'q') || is(
                key,
                'h',
            ) {
                Command::CloseDetail
            } else if is(key, 'j') || key == Key::Down {
                Command::NextIssue
            } else if is(key, 'k') || key == Key::Up {
                Command::PrevIssue
            } else if key == Key::PageDown || is(key, 'd') {
                Command::ScrollDetail(10)
            } else if key == Key::PageUp || is(key, 'u') {
                Command::ScrollDetail(-10)
            } else if is(key, 'g') {
                Command::ScrollDetail(i32::MIN)
            } else if is(key, 'G') {
                Command::ScrollDetail(i32::MAX)
            } else if is(key, 's') {
                Command::OpenStatusPicker
            } else if let Key::Char(c) = key {
                Command::LaunchExtension(c)
            } else {
                Command::Nothing
            },
            Mode::StatusPicker { .. } => if key == Key::Esc {
                Command::StatusPickerCancel
            } else if is(key, 'j') || key == Key::Down {
                Command::StatusPickerMove(1)
            } else if is(key, 'k') || key == Key::Up {
                Command::StatusPickerMove(-1)
            } else if key == Key::Enter {
                Command::StatusPickerConfirm
            } else {
                Command::Nothing
            },
            Mode::NewIssueTitle { .. } => if key == Key::Esc {
                Command::NewIssueCancel
            } else if key == Key::Backspace {
                Command::NewIssueBackspace
            } else if key == Key::Enter {
                Command::NewIssueConfirm
            } else if let Key::Char(c) = key {
                Command::NewIssueInput(c)
            } else {
                Command::Nothing
            },
            Mode::ExtensionOutput { .. } => if key == Key::Esc || is(key, 'q') {
                Command::CloseExtensionOutput
            } else if is(key, 'K') {
                Command::CancelExtension
            } else if is(key, 'j') || key == Key::Down {
                Command::ScrollExtensionOutput(1)
            } else if is(key, 'k') || key == Key::Up {
                Command::ScrollExtensionOutput(-1)
            } else if key == Key::PageDown || is(key, 'd') {
                Command::ScrollExtensionOutput(10)
            } else if key == Key::PageUp || is(key, 'u') {
                Command::ScrollExtensionOutput(-10)
            } else if is(key, 'g') {
                Command::ScrollExtensionOutput(i32::MIN)
            } else if is(key, 'G') {
                Command::ScrollExtensionOutput(i32::MAX)
            } else {
                Command::Nothing
            },
            Mode::FilterMenu { .. } => if key == Key::Esc {
                Command::FilterMenuCancel
            } else if key == Key::Enter {
                Command::FilterMenuSelect
            } else if is(key, 'j') || key == Key::Down {
                Command::FilterMenuMove(1)
            } else if is(key, 'k') || key == Key::Up {
                Command::FilterMenuMove(-1)
            } else if is(key, 'c') {
                Command::ClearFilters
            } else {
                Command::Nothing
            },
            Mode::Filter { .. } => if key == Key::Esc {
                Command::FilterCancel
            } else if key == Key::Enter {
                Command::FilterConfirm
            } else if is(key, ' ') {
                Command::FilterToggle
            } else if is(key, 'j') || key == Key::Down {
                Command::FilterMove(1)
            } else if is(key, 'k') || key == Key::Up {
                Command::FilterMove(-1)
            } else {
                Command::Nothing
            },
        }
    }

    /// Prepares running the extension bound to `key`. Nothing happens when no
    /// extension is bound to it; when one is already running, its output view
    /// is reopened instead of starting a second run; otherwise, with an issue
    /// selected, the run to start is returned (the caller starts it).
    pub fn launch_extension(&mut self, key: char) -> (r: Option<LaunchRequest>)
        ensures
            match first_bound(old(self).extensions@, key) {
                None => r is None && *final(self) == *old(self),
                Some(k) => if old(self).extension_running_spec() {
                    r is None && *final(self) == (App {
                        mode: Mode::ExtensionOutput { scroll: 0 },
                        ..*old(self)
                    })
                } else {
                    *final(self) == *old(self) && match old(self).selected_view() {
                        None => r is None,
                        Some(i) => r matches Some(req) && req.extension == old(self).extensions@[k]
                            && req.issue@ == i && match old(self).active_project {
                            None => req.project_root is None,
                            Some(p) => req.project_root matches Some(s) && exists|
                                home: Option<Seq<char>>,
                            | s@ == p.root_in(home),
                        },
                    }
                },
            },
    {
        let extension = match self.find_extension(key) {
            Some(e) => e,
            None => {
                return None;
            },
        };
        if self.extension_running() {
            self.show_extension_output();
            return None;
        }
        let issue = match self.selected_issue() {
            Some(i) => i.duplicate(),
            None => {
                return None;
            },
        };
        let project_root = self.project_root();
        Some(LaunchRequest { extension, issue, project_root })
    }

    /// Whether an extension command is still running.
    pub open spec fn extension_running_spec(&self) -> bool {
        self.extension_run matches Some(run) && run.running
    }
}

/// Position of the first extension of `s` bound to `key`.
pub open spec fn first_bound(s: Seq<Extension>, key: char) -> Option<int> {
    if exists|k: int| 0 <= k < s.len() && s[k].key == key {
        Some(
            choose|k: int|
                0 <= k < s.len() && s[k].key == key && forall|j: int|
                    0 <= j < k ==> #[trigger] s[j].key != key,
        )
    } else {
        None
    }
}

/// In every mode with a cursor or a scroll position, the up keys (`k`, Up)
/// and the down keys (`j`, Down) move in opposite directions: down to the
/// next row, issue or line, up to the previous one.
pub proof fn lemma_up_down_keys(mode: Mode, has_project: bool)
    ensures
        mode is Normal ==> command_for(&mode, has_project, Key::Char('j')) == Command::SelectNext
            && command_for(&mode, has_project, Key::Down) == Command::SelectNext
            && command_for(&mode, has_project, Key::Char('k')) == Command::SelectPrev
            && command_for(&mode, has_project, Key::Up) == Command::SelectPrev,
        mode is Detail ==> command_for(&mode, has_project, Key::Char('j')) == Command::NextIssue
            && command_for(&mode, has_project, Key::Down) == Command::NextIssue
            && command_for(&mode, has_project, Key::Char('k')) == Command::PrevIssue
            && command_for(&mode, has_project, Key::Up) == Command::PrevIssue,
        mode is StatusPicker ==> command_for(&mode, has_project, Key::Char('j'))
            == Command::StatusPickerMove(1i32) && command_for(&mode, has_project, Key::Down)
            == Command::StatusPickerMove(1i32) && command_for(&mode, has_project, Key::Char('k'))
            == Command::StatusPickerMove(-1i32) && command_for(&mode, has_project, Key::Up)
            == Command::StatusPickerMove(-1i32),
        mode is ExtensionOutput ==> command_for(&mode, has_project, Key::Char('j'))
            == Command::ScrollExtensionOutput(1i32) && command_for(&mode, has_project, Key::Down)
            == Command::ScrollExtensionOutput(1i32) && command_for(&mode, has_project, Key::Char('k'))
            == Command::ScrollExtensionOutput(-1i32) && command_for(&mode, has_project, Key::Up)
            == Command::ScrollExtensionOutput(-1i32),
        mode is FilterMenu ==> command_for(&mode, has_project, Key::Char('j'))
            == Command::FilterMenuMove(1i32) && command_for(&mode, has_project, Key::Down)
            == Command::FilterMenuMove(1i32) && command_for(&mode, has_project, Key::Char('k'))
            == Command::FilterMenuMove(-1i32) && command_for(&mode, has_project, Key::Up)
            == Command::FilterMenuMove(-1i32),
        mode is Filter ==> command_for(&mode, has_project, Key::Char('j')) == Command::FilterMove(1i32)
            && command_for(&mode, has_project, Key::Down) == Command::FilterMove(1i32)
            && command_for(&mode, has_project, Key::Char('k')) == Command::FilterMove(-1i32)
            && command_for(&mode, has_project, Key::Up) == Command::FilterMove(-1i32),
{
}

} // verus!
