//! The shared dispatch of the event loop: key presses feed the resolver or
//! the line editor, and resolved actions mutate the interaction state or
//! hand the front-end a directive for the work only it can do.

use vstd::prelude::*;
use vstd::string::StringExecFns;

use crate::action::{Action, ActionV, CommandType};
use crate::config::{parse_button_spec, parse_map_spec, set_var_spec, MappingScope};
use crate::editor::{back_over_word, back_over_ws, backspace, cursor_from_click, insert_char, move_left, move_right};
use crate::errors::{Error, ErrorV};
use crate::keys::{any_prefix, first_exact, resolve_keys, KeyResolution};
use crate::search::{
    build_search, continue_search_scan, matches_line, regex_matches, regex_valid,
    search_case_sensitive, search_result, SearchOutcome,
};
use crate::state::{notif_lookup, notif_views, AppState, InputState, NotifChannel};
use crate::text::{chars_to_string, next_non_ws, next_ws, str_to_chars};
use crate::viewport::{shift_bottom_offset, shift_middle_offset};

verus! {

/// Work the dispatcher asks of the front-end.
#[derive(Debug, Clone, PartialEq)]
pub enum Directive {
    /// Nothing left to do for this action.
    Nothing,
    /// Refresh the view's domain data.
    Reload,
    /// Substitute the view's context into this template and run it under
    /// the given policy.
    RunCommand(CommandType, String),
    /// Move the search by one result; `true` asks for the previous one.
    SearchMove(bool),
    /// Open the commit view for the selected revision.
    OpenShow,
    /// Open the pager on the selected revision's patch.
    OpenGitShow,
    /// Open the pager on the log reachable from the selected revision.
    OpenLog,
}

/// The name under which a view-specific action is reported as unsupported.
pub open spec fn action_name(a: ActionV) -> Seq<char> {
    match a {
        ActionV::StageUnstageFile => "StageUnstageFile"@,
        ActionV::StageUnstageFiles => "StageUnstageFiles"@,
        ActionV::StatusSwitchView => "StatusSwitchView"@,
        ActionV::FocusUnstagedView => "FocusUnstagedView"@,
        ActionV::FocusStagedView => "FocusStagedView"@,
        ActionV::NextCommitBlame => "NextCommitBlame"@,
        ActionV::PreviousCommitBlame => "PreviousCommitBlame"@,
        ActionV::PagerNextCommit => "PagerNextCommit"@,
        ActionV::PreviousCommit => "PreviousCommit"@,
        ActionV::StashPop => "StashPop"@,
        ActionV::StashApply => "StashApply"@,
        ActionV::StashDrop => "StashDrop"@,
        _ => Seq::empty(),
    }
}

/// The error reported when a view-specific action reaches the shared
/// dispatcher.
pub open spec fn context_error(a: ActionV) -> ErrorV {
    ErrorV::Global("cannot run `"@ + action_name(a) + "` in this context"@)
}

fn context_error_value(name: &str) -> (e: Error)
    ensures
        e@ == ErrorV::Global("cannot run `"@ + name@ + "` in this context"@),
{
    let mut m = String::from_str("cannot run `");
    m.append(name);
    m.append("` in this context");
    assert(m@ =~= "cannot run `"@ + name@ + "` in this context"@);
    Error::Global(m)
}

/// Run one generic action against the interaction state; the returned
/// directive names the outside work that completes it.
#[verifier::rlimit(50)]
pub fn run_action_generic(state: &mut AppState, action: &Action, height: usize) -> (r: Result<
    Directive,
    Error,
>)
    requires
        height <= 65535,
    ensures
        match *action {
            Action::Reload => r == Ok::<Directive, Error>(Directive::Reload) && *final(state)
                == *old(state),
            Action::Quit => r == Ok::<Directive, Error>(Directive::Nothing) && *final(state) == (
            AppState { quit: true, ..*old(state) }),
            Action::Up => r == Ok::<Directive, Error>(Directive::Nothing) && final(state).list
                == (crate::state::ListCursor {
                selected: Some(
                    match old(state).list.selected {
                        Some(i) => if i > 0 {
                            (i - 1) as usize
                        } else {
                            0
                        },
                        None => usize::MAX,
                    },
                ),
                ..old(state).list
            }) && *final(state) == (AppState { list: final(state).list, ..*old(state) }),
            Action::Down => r == Ok::<Directive, Error>(Directive::Nothing) && final(state).list
                == (crate::state::ListCursor {
                selected: Some(
                    match old(state).list.selected {
                        Some(i) => if i < usize::MAX {
                            (i + 1) as usize
                        } else {
                            usize::MAX
                        },
                        None => 0,
                    },
                ),
                ..old(state).list
            }) && *final(state) == (AppState { list: final(state).list, ..*old(state) }),
            Action::First => r == Ok::<Directive, Error>(Directive::Nothing) && final(state).list
                == (crate::state::ListCursor { selected: Some(0usize), ..old(state).list })
                && *final(state) == (AppState { list: final(state).list, ..*old(state) }),
            Action::Last => r == Ok::<Directive, Error>(Directive::Nothing) && final(state).list
                == (crate::state::ListCursor { selected: Some(usize::MAX), ..old(state).list })
                && *final(state) == (AppState { list: final(state).list, ..*old(state) }),
            Action::HalfPageUp => r == Ok::<Directive, Error>(Directive::Nothing) && final(state).list.selected == Some(
                (if old(state).list.selected.unwrap_or(0) >= height as int / 2 {
                    (old(state).list.selected.unwrap_or(0) - height as int / 2) as usize
                } else {
                    0
                }),
            ) && final(state).list.offset == old(state).list.offset && *final(state) == (AppState {
                list: final(state).list,
                ..*old(state)
            }),
            Action::HalfPageDown => r == Ok::<Directive, Error>(Directive::Nothing) && final(state).list.selected == Some(
                (if old(state).list.selected.unwrap_or(0) + height as int / 2 <= usize::MAX {
                    (old(state).list.selected.unwrap_or(0) + height as int / 2) as usize
                } else {
                    usize::MAX
                }),
            ) && final(state).list.offset == old(state).list.offset && *final(state) == (AppState {
                list: final(state).list,
                ..*old(state)
            }),
            Action::ShiftLineTop => match r {
                Ok(d) => d == Directive::Nothing && old(state).list.selected is Some && final(state).list == (crate::state::ListCursor {
                    offset: old(state).list.selected.unwrap(),
                    ..old(state).list
                }) && *final(state) == (AppState { list: final(state).list, ..*old(state) }),
                Err(e) => old(state).list.selected is None && e@ == ErrorV::StateIndex && *final(state) == *old(state),
            },
            Action::ShiftLineMiddle => match r {
                Ok(d) => d == Directive::Nothing && old(state).list.selected is Some && final(state).list.offset == (if old(state).list.selected.unwrap() > height as int / 2 {
                    old(state).list.selected.unwrap() - height as int / 2
                } else {
                    0int
                }) && final(state).list.selected == old(state).list.selected && *final(state) == (
                AppState { list: final(state).list, ..*old(state) }),
                Err(e) => old(state).list.selected is None && e@ == ErrorV::StateIndex && *final(state) == *old(state),
            },
            Action::ShiftLineBottom => match r {
                Ok(d) => d == Directive::Nothing && old(state).list.selected is Some && final(state).list.offset == (if old(state).list.selected.unwrap() > height {
                    old(state).list.selected.unwrap() - height
                } else {
                    0int
                }) && final(state).list.selected == old(state).list.selected && *final(state) == (
                AppState { list: final(state).list, ..*old(state) }),
                Err(e) => old(state).list.selected is None && e@ == ErrorV::StateIndex && *final(state) == *old(state),
            },
            Action::Command(kind, _) => (match r {
                Ok(d) => d matches Directive::RunCommand(k, t) && k == kind && t@
                    == action@->Command_1,
                Err(_) => false,
            }) && *final(state) == *old(state),
            Action::Search => r == Ok::<Directive, Error>(Directive::Nothing) && *final(state) == (
            AppState {
                search_string: final(state).search_string,
                search_reverse: false,
                edit_cursor: 0,
                input_state: InputState::Search,
                ..*old(state)
            }) && final(state).search_string@ == Seq::<char>::empty(),
            Action::SearchReverse => r == Ok::<Directive, Error>(Directive::Nothing) && *final(state) == (AppState {
                search_string: final(state).search_string,
                search_reverse: true,
                edit_cursor: 0,
                input_state: InputState::Search,
                ..*old(state)
            }) && final(state).search_string@ == Seq::<char>::empty(),
            Action::TypeCommand => r == Ok::<Directive, Error>(Directive::Nothing) && *final(state)
                == (AppState {
                command_string: final(state).command_string,
                edit_cursor: 0,
                input_state: InputState::Command,
                ..*old(state)
            }) && final(state).command_string@ == Seq::<char>::empty(),
            Action::NextSearchResult => r == Ok::<Directive, Error>(Directive::SearchMove(false))
                && *final(state) == *old(state),
            Action::PreviousSearchResult => r == Ok::<Directive, Error>(
                Directive::SearchMove(true),
            ) && *final(state) == *old(state),
            Action::GoTo(n) => r == Ok::<Directive, Error>(Directive::Nothing) && final(state).list
                == (crate::state::ListCursor { selected: Some(n), ..old(state).list }) && *final(state) == (AppState { list: final(state).list, ..*old(state) }),
            Action::Nop => r == Ok::<Directive, Error>(Directive::Nothing) && *final(state)
                == *old(state),
            Action::Echo(_) => r == Ok::<Directive, Error>(Directive::Nothing) && ({
                let m = "echo: "@ + action@->Echo_0;
                &&& notif_lookup(notif_views(final(state).notif@), NotifChannel::Echo) == Some(m)
                &&& forall|c: NotifChannel|
                    c != NotifChannel::Echo ==> #[trigger] notif_lookup(
                        notif_views(final(state).notif@),
                        c,
                    ) == notif_lookup(notif_views(old(state).notif@), c)
                &&& *final(state) == (AppState { notif: final(state).notif, ..*old(state) })
            }),
            Action::MapBinding(_) => ({
                let res = parse_map_spec(old(state).config@, action@->MapBinding_0, false);
                match r {
                    Ok(d) => d == Directive::Nothing && (res matches Ok(c) && final(state).config@
                        == c) && *final(state) == (AppState {
                        config: final(state).config,
                        ..*old(state)
                    }),
                    Err(e) => (res matches Err(ev) && e@ == ev) && final(state).config@
                        == old(state).config@ && *final(state) == (AppState {
                        config: final(state).config,
                        ..*old(state)
                    }),
                }
            }),
            Action::SetVariable(_) => ({
                let res = set_var_spec(old(state).config@, action@->SetVariable_0);
                match r {
                    Ok(d) => d == Directive::Nothing && (res matches Ok(c) && final(state).config@
                        == c) && *final(state) == (AppState {
                        config: final(state).config,
                        ..*old(state)
                    }),
                    Err(e) => (res matches Err(ev) && e@ == ev) && final(state).config@
                        == old(state).config@ && *final(state) == (AppState {
                        config: final(state).config,
                        ..*old(state)
                    }),
                }
            }),
            Action::Button(_) => ({
                let res = parse_button_spec(old(state).config@, action@->Button_0, false);
                match r {
                    Ok(d) => d == Directive::Nothing && (res matches Ok(c) && final(state).config@
                        == c) && *final(state) == (AppState {
                        config: final(state).config,
                        ..*old(state)
                    }),
                    Err(e) => (res matches Err(ev) && e@ == ev) && final(state).config@
                        == old(state).config@ && *final(state) == (AppState {
                        config: final(state).config,
                        ..*old(state)
                    }),
                }
            }),
            Action::OpenShowApp => r == Ok::<Directive, Error>(Directive::OpenShow) && *final(state)
                == *old(state),
            Action::OpenGitShow => r == Ok::<Directive, Error>(Directive::OpenGitShow) && *final(state) == *old(state),
            Action::OpenLogApp => r == Ok::<Directive, Error>(Directive::OpenLog) && *final(state)
                == *old(state),
            _ => (match r {
                Ok(_) => false,
                Err(e) => e@ == context_error(action@),
            }) && *final(state) == *old(state),
        },
{
    match action {
        Action::Reload => Ok(Directive::Reload),
        Action::Quit => {
            state.quit = true;
            Ok(Directive::Nothing)
        },
        Action::Up => {
            state.list.select_previous();
            Ok(Directive::Nothing)
        },
        Action::Down => {
            state.list.select_next();
            Ok(Directive::Nothing)
        },
        Action::First => {
            state.list.select_first();
            Ok(Directive::Nothing)
        },
        Action::Last => {
            state.list.select_last();
            Ok(Directive::Nothing)
        },
        Action::HalfPageUp => {
            state.list.scroll_up_by((height as u16) / 2);
            Ok(Directive::Nothing)
        },
        Action::HalfPageDown => {
            state.list.scroll_down_by((height as u16) / 2);
            Ok(Directive::Nothing)
        },
        Action::ShiftLineTop => {
            let idx = match state.idx() {
                Ok(i) => i,
                Err(e) => {
                    return Err(e);
                },
            };
            state.list.offset = idx;
            Ok(Directive::Nothing)
        },
        Action::ShiftLineMiddle => {
            let idx = match state.idx() {
                Ok(i) => i,
                Err(e) => {
                    return Err(e);
                },
            };
            state.list.offset = shift_middle_offset(idx, height);
            Ok(Directive::Nothing)
        },
        Action::ShiftLineBottom => {
            let idx = match state.idx() {
                Ok(i) => i,
                Err(e) => {
                    return Err(e);
                },
            };
            state.list.offset = shift_bottom_offset(idx, height);
            Ok(Directive::Nothing)
        },
        Action::Command(kind, template) => Ok(Directive::RunCommand(*kind, template.clone())),
        Action::Search => {
            state.search_string = String::new();
            state.search_reverse = false;
            state.edit_cursor = 0;
            state.input_state = InputState::Search;
            Ok(Directive::Nothing)
        },
        Action::SearchReverse => {
            state.search_string = String::new();
            state.search_reverse = true;
            state.edit_cursor = 0;
            state.input_state = InputState::Search;
            Ok(Directive::Nothing)
        },
        Action::TypeCommand => {
            state.command_string = String::new();
            state.edit_cursor = 0;
            state.input_state = InputState::Command;
            Ok(Directive::Nothing)
        },
        Action::NextSearchResult => Ok(Directive::SearchMove(false)),
        Action::PreviousSearchResult => Ok(Directive::SearchMove(true)),
        Action::GoTo(n) => {
            state.list.select(Some(*n));
            Ok(Directive::Nothing)
        },
        Action::Nop => Ok(Directive::Nothing),
        Action::Echo(msg) => {
            let mut m = String::from_str("echo: ");
            m.append(msg.as_str());
            assert(m@ =~= "echo: "@ + action@->Echo_0);
            state.notify(NotifChannel::Echo, Some(m));
            Ok(Directive::Nothing)
        },
        Action::MapBinding(line) => {
            let line_s = line.clone();
            match state.config.parse_map_line(line_s.as_str(), false) {
                Ok(_) => Ok(Directive::Nothing),
                Err(e) => Err(e),
            }
        },
        Action::SetVariable(line) => {
            let line_s = line.clone();
            match state.config.parse_set_line(line_s.as_str()) {
                Ok(_) => Ok(Directive::Nothing),
                Err(e) => Err(e),
            }
        },
        Action::Button(line) => {
            let line_s = line.clone();
            match state.config.parse_button_line(line_s.as_str(), false) {
                Ok(_) => Ok(Directive::Nothing),
                Err(e) => Err(e),
            }
        },
        Action::OpenShowApp => Ok(Directive::OpenShow),
        Action::OpenGitShow => Ok(Directive::OpenGitShow),
        Action::OpenLogApp => Ok(Directive::OpenLog),
        Action::StageUnstageFile => Err(context_error_value("StageUnstageFile")),
        Action::StageUnstageFiles => Err(context_error_value("StageUnstageFiles")),
        Action::StatusSwitchView => Err(context_error_value("StatusSwitchView")),
        Action::FocusUnstagedView => Err(context_error_value("FocusUnstagedView")),
        Action::FocusStagedView => Err(context_error_value("FocusStagedView")),
        Action::NextCommitBlame => Err(context_error_value("NextCommitBlame")),
        Action::PreviousCommitBlame => Err(context_error_value("PreviousCommitBlame")),
        Action::PagerNextCommit => Err(context_error_value("PagerNextCommit")),
        Action::PreviousCommit => Err(context_error_value("PreviousCommit")),
        Action::StashPop => Err(context_error_value("StashPop")),
        Action::StashApply => Err(context_error_value("StashApply")),
        Action::StashDrop => Err(context_error_value("StashDrop")),
    }
}

/// What the state does after a foreground command: a quitting command marks
/// the application for termination, a plain foreground command asks for a
/// reload, a detached command needs nothing.
pub fn after_command(state: &mut AppState, kind: CommandType) -> (r: Directive)
    ensures
        match kind {
            CommandType::SyncQuit => r == Directive::Nothing && *final(state) == (AppState {
                quit: true,
                ..*old(state)
            }),
            CommandType::Sync => r == Directive::Reload && *final(state) == *old(state),
            CommandType::Async => r == Directive::Nothing && *final(state) == *old(state),
        },
{
    match kind {
        CommandType::SyncQuit => {
            state.quit = true;
            Directive::Nothing
        },
        CommandType::Sync => Directive::Reload,
        CommandType::Async => Directive::Nothing,
    }
}

/// One key press while a line editor is open.
#[derive(Debug, Clone, Copy, PartialEq)]
pub enum EditKey {
    Enter,
    Esc,
    Left,
    Right,
    Backspace,
    Char(char),
    Other,
}

/// Leave the input line: the open editor's text is dropped, the cursor
/// rewinds, and keys go to the application again.
pub fn exit_input_line(state: &mut AppState)
    ensures
        *final(state) == (AppState {
            search_string: final(state).search_string,
            command_string: final(state).command_string,
            edit_cursor: 0,
            input_state: InputState::App,
            ..*old(state)
        }),
        final(state).search_string@ == (if old(state).input_state == InputState::Search {
            Seq::<char>::empty()
        } else {
            old(state).search_string@
        }),
        final(state).command_string@ == (if old(state).input_state == InputState::Command {
            Seq::<char>::empty()
        } else {
            old(state).command_string@
        }),
{
    match state.input_state {
        InputState::Search => {
            state.search_string = String::new();
        },
        InputState::Command => {
            state.command_string = String::new();
        },
        InputState::App => {},
    }
    state.edit_cursor = 0;
    state.input_state = InputState::App;
}

/// The text the open editor holds.
pub open spec fn edit_line_of(s: AppState) -> Seq<char> {
    if s.input_state == InputState::Search {
        s.search_string@
    } else {
        s.command_string@
    }
}

/// Feed one key to the open line editor: movement and deletion honour the
/// control modifier's word mode, Enter commits the line (a typed command is
/// parsed, a search asks for its first result), Escape abandons it.
#[verifier::rlimit(30)]
pub fn line_edit_key(state: &mut AppState, key: EditKey, ctrl: bool) -> (r: Result<
    Option<Action>,
    Error,
>)
    requires
        old(state).edit_cursor <= edit_line_of(*old(state)).len(),
        edit_line_of(*old(state)).len() < usize::MAX,
    ensures
        old(state).input_state == InputState::App ==> r == Ok::<Option<Action>, Error>(None)
            && *final(state) == *old(state),
        old(state).input_state != InputState::App ==> match key {
            EditKey::Enter => ({
                &&& final(state).input_state == InputState::App
                &&& *final(state) == (AppState {
                    input_state: InputState::App,
                    ..*old(state)
                })
                &&& if old(state).input_state == InputState::Command {
                    match r {
                        Ok(a) => a matches Some(act)
                            && crate::action::parse_action_spec(
                            old(state).command_string@,
                        ) == Some(act@),
                        Err(e) => crate::action::parse_action_spec(old(state).command_string@)
                            is None && e@ == ErrorV::ParseAction(old(state).command_string@),
                    }
                } else {
                    r == Ok::<Option<Action>, Error>(Some(Action::NextSearchResult))
                }
            }),
            EditKey::Esc => r == Ok::<Option<Action>, Error>(None) && final(state).input_state
                == InputState::App && final(state).edit_cursor == 0,
            EditKey::Left => r == Ok::<Option<Action>, Error>(None) && *final(state) == (AppState {
                edit_cursor: final(state).edit_cursor,
                ..*old(state)
            }) && final(state).edit_cursor == (if !ctrl {
                if old(state).edit_cursor > 0 {
                    old(state).edit_cursor - 1
                } else {
                    0int
                }
            } else {
                back_over_word(
                    edit_line_of(*old(state)),
                    back_over_ws(edit_line_of(*old(state)), old(state).edit_cursor as int),
                )
            }),
            EditKey::Right => r == Ok::<Option<Action>, Error>(None) && *final(state) == (AppState {
                edit_cursor: final(state).edit_cursor,
                ..*old(state)
            }) && final(state).edit_cursor == (if !ctrl {
                if old(state).edit_cursor < edit_line_of(*old(state)).len() {
                    old(state).edit_cursor + 1
                } else {
                    old(state).edit_cursor as int
                }
            } else {
                next_non_ws(
                    edit_line_of(*old(state)),
                    next_ws(edit_line_of(*old(state)), old(state).edit_cursor as int),
                )
            }),
            EditKey::Backspace => r == Ok::<Option<Action>, Error>(None) && ({
                let line = edit_line_of(*old(state));
                let cur = old(state).edit_cursor as int;
                let new_line = edit_line_of(*final(state));
                &&& *final(state) == (AppState {
                    search_string: final(state).search_string,
                    command_string: final(state).command_string,
                    edit_cursor: final(state).edit_cursor,
                    ..*old(state)
                })
                &&& final(state).input_state == old(state).input_state
                &&& if cur == 0 {
                    new_line == line && final(state).edit_cursor == 0
                } else if !ctrl {
                    new_line == line.remove(cur - 1) && final(state).edit_cursor == cur - 1
                } else {
                    ({
                        let w = back_over_ws(line, cur);
                        let b = back_over_word(line, w);
                        new_line == line.subrange(0, b) + line.skip(w) && final(state).edit_cursor
                            == b
                    })
                }
                &&& (if old(state).input_state == InputState::Search {
                    final(state).command_string@ == old(state).command_string@
                } else {
                    final(state).search_string@ == old(state).search_string@
                })
            }),
            EditKey::Char(c) => r == Ok::<Option<Action>, Error>(None) && ({
                let line = edit_line_of(*old(state));
                let cur = old(state).edit_cursor as int;
                &&& *final(state) == (AppState {
                    search_string: final(state).search_string,
                    command_string: final(state).command_string,
                    edit_cursor: (cur + 1) as usize,
                    ..*old(state)
                })
                &&& edit_line_of(*final(state)) == line.insert(cur, c)
                &&& (if old(state).input_state == InputState::Search {
                    final(state).command_string@ == old(state).command_string@
                } else {
                    final(state).search_string@ == old(state).search_string@
                })
            }),
            EditKey::Other => r == Ok::<Option<Action>, Error>(None) && notif_lookup(
                notif_views(final(state).notif@),
                NotifChannel::Error,
            ) == Some("error: this char is not handled yet"@) && *final(state) == (AppState {
                notif: final(state).notif,
                ..*old(state)
            }),
        },
{
    let input_state = state.input_state;
    if matches!(input_state, InputState::App) {
        return Ok(None);
    }
    match key {
        EditKey::Enter => {
            match input_state {
                InputState::Command => {
                    let parsed = Action::from_str(state.command_string.clone().as_str());
                    state.input_state = InputState::App;
                    match parsed {
                        Ok(a) => Ok(Some(a)),
                        Err(e) => Err(e),
                    }
                },
                _ => {
                    state.input_state = InputState::App;
                    Ok(Some(Action::NextSearchResult))
                },
            }
        },
        EditKey::Esc => {
            exit_input_line(state);
            Ok(None)
        },
        EditKey::Left => {
            let chars = if matches!(input_state, InputState::Search) {
                str_to_chars(state.search_string.as_str())
            } else {
                str_to_chars(state.command_string.as_str())
            };
            state.edit_cursor = move_left(&chars, state.edit_cursor, ctrl);
            Ok(None)
        },
        EditKey::Right => {
            let chars = if matches!(input_state, InputState::Search) {
                str_to_chars(state.search_string.as_str())
            } else {
                str_to_chars(state.command_string.as_str())
            };
            state.edit_cursor = move_right(&chars, state.edit_cursor, ctrl);
            Ok(None)
        },
        EditKey::Backspace => {
            let mut chars = if matches!(input_state, InputState::Search) {
                str_to_chars(state.search_string.as_str())
            } else {
                str_to_chars(state.command_string.as_str())
            };
            let new_cursor = backspace(&mut chars, state.edit_cursor, ctrl);
            let rebuilt = chars_to_string(&chars);
            if matches!(input_state, InputState::Search) {
                state.search_string = rebuilt;
            } else {
                state.command_string = rebuilt;
            }
            state.edit_cursor = new_cursor;
            Ok(None)
        },
        EditKey::Char(c) => {
            let mut chars = if matches!(input_state, InputState::Search) {
                str_to_chars(state.search_string.as_str())
            } else {
                str_to_chars(state.command_string.as_str())
            };
            let new_cursor = insert_char(&mut chars, state.edit_cursor, c);
            let rebuilt = chars_to_string(&chars);
            if matches!(input_state, InputState::Search) {
                state.search_string = rebuilt;
            } else {
                state.command_string = rebuilt;
            }
            state.edit_cursor = new_cursor;
            Ok(None)
        },
        EditKey::Other => {
            state.notify(
                NotifChannel::Error,
                Some(String::from_str("error: this char is not handled yet")),
            );
            Ok(None)
        },
    }
}

/// Place the edit cursor from a click at column `x` inside the edit bar.
pub fn edit_click_cursor(state: &mut AppState, x: usize)
    ensures
        *final(state) == (AppState { edit_cursor: final(state).edit_cursor, ..*old(state) }),
        ({
            let len = edit_line_of(*old(state)).len() as int;
            final(state).edit_cursor == if x > len {
                len
            } else if x <= 1 {
                0int
            } else {
                x - 1
            }
        }),
{
    let len = if matches!(state.input_state, InputState::Search) {
        state.search_string.as_str().unicode_len()
    } else {
        state.command_string.as_str().unicode_len()
    };
    state.edit_cursor = cursor_from_click(len, x);
}

/// Run a pending search one step further: the first matching line at or
/// past the stored index is selected and the pending state cleared; content
/// still loading keeps the search pending; exhausted content reports the
/// last match as reached. An invalid pattern is reported as an error.
#[verifier::rlimit(30)]
pub fn continue_search(state: &mut AppState, lines: &Vec<String>, loaded: bool, idx: usize) -> (r:
    Result<(), Error>)
    ensures
        ({
            let lv = lines@.map_values(|s: String| s@);
            let ss = old(state).search_string@;
            let ci = !search_case_sensitive(ss, old(state).config.smart_case);
            match r {
                Err(e) => !regex_valid(ss, ci) && e@ == ErrorV::Global("invalid regex"@)
                    && *final(state) == *old(state),
                Ok(_) => regex_valid(ss, ci) && ({
                    &&& *final(state) == (AppState {
                        list: final(state).list,
                        current_search_idx: final(state).current_search_idx,
                        notif: final(state).notif,
                        ..*old(state)
                    })
                    &&& if exists|i: int|
                        idx <= i < lv.len() && regex_matches(ss, ci, #[trigger] lv[i]) {
                        ({
                            let first = choose|i: int|
                                idx <= i < lv.len() && regex_matches(ss, ci, #[trigger] lv[i])
                                    && forall|j: int|
                                    idx <= j < i ==> !regex_matches(ss, ci, #[trigger] lv[j]);
                            &&& final(state).list.selected == Some(first as usize)
                            &&& final(state).list.offset == old(state).list.offset
                            &&& final(state).current_search_idx is None
                            &&& notif_lookup(
                                notif_views(final(state).notif@),
                                NotifChannel::Search,
                            ) is None
                            &&& forall|c: NotifChannel|
                                c != NotifChannel::Search ==> #[trigger] notif_lookup(
                                    notif_views(final(state).notif@),
                                    c,
                                ) == notif_lookup(notif_views(old(state).notif@), c)
                        })
                    } else if !loaded {
                        final(state).current_search_idx == Some(
                            (if idx >= lv.len() {
                                idx as int
                            } else {
                                lv.len() as int
                            }) as usize,
                        ) && final(state).list == old(state).list && final(state).notif == old(
                            state,
                        ).notif
                    } else {
                        ({
                            &&& final(state).current_search_idx is None
                            &&& final(state).list == old(state).list
                            &&& notif_lookup(
                                notif_views(final(state).notif@),
                                NotifChannel::Error,
                            ) == Some("reached last match"@)
                            &&& notif_lookup(
                                notif_views(final(state).notif@),
                                NotifChannel::Search,
                            ) is None
                            &&& forall|c: NotifChannel|
                                c != NotifChannel::Error && c != NotifChannel::Search
                                    ==> #[trigger] notif_lookup(
                                    notif_views(final(state).notif@),
                                    c,
                                ) == notif_lookup(notif_views(old(state).notif@), c)
                        })
                    }
                }),
            }
        }),
{
    let ghost lv = lines@.map_values(|s: String| s@);
    let ghost ss = state.search_string@;
    let ghost ci = !search_case_sensitive(ss, state.config.smart_case);
    let pat = match build_search(&state.search_string, state.config.smart_case) {
        Ok(p) => p,
        Err(e) => {
            return Err(e);
        },
    };
    assert(pat.pattern_view() == ss && pat.ci() == ci);
    match continue_search_scan(&pat, lines, loaded, idx) {
        SearchOutcome::Found(i) => {
            proof {
                assert forall|j: int| idx <= j < i implies !regex_matches(
                    ss,
                    ci,
                    #[trigger] lv[j],
                ) by {
                    assert(!matches_line(pat, lv, j));
                }
                assert(regex_matches(ss, ci, lv[i as int])) by {
                    assert(matches_line(pat, lv, i as int));
                }
            }
            state.list.select(Some(i));
            state.current_search_idx = None;
            state.notify(NotifChannel::Search, None);
            proof {
                let first = choose|w: int|
                    idx <= w < lv.len() && regex_matches(ss, ci, #[trigger] lv[w]) && forall|
                        j: int,
                    | idx <= j < w ==> !regex_matches(ss, ci, #[trigger] lv[j]);
                assert(first == i) by {
                    if first < i {
                        assert(!regex_matches(ss, ci, lv[first]));
                    } else if i < first {
                        assert(!regex_matches(ss, ci, lv[i as int]));
                    }
                }
            }
            Ok(())
        },
        SearchOutcome::Pending(i) => {
            proof {
                assert forall|j: int| idx <= j < lv.len() implies !regex_matches(
                    ss,
                    ci,
                    #[trigger] lv[j],
                ) by {
                    assert(!matches_line(pat, lv, j));
                }
            }
            state.current_search_idx = Some(i);
            Ok(())
        },
        SearchOutcome::Exhausted => {
            proof {
                assert forall|j: int| idx <= j < lv.len() implies !regex_matches(
                    ss,
                    ci,
                    #[trigger] lv[j],
                ) by {
                    assert(!matches_line(pat, lv, j));
                }
            }
            let msg = Error::ReachedLastMachted.text();
            proof {
                reveal_strlit("reached last match");
            }
            state.notify(NotifChannel::Error, Some(msg));
            state.current_search_idx = None;
            state.notify(NotifChannel::Search, None);
            Ok(())
        },
    }
}

/// Move the search by one result from the current selection: the requested
/// direction combined with the stored reverse flag decides the scan
/// direction, and the nearest match on that side is selected; a forward
/// scan off still-loading content goes pending with a progress
/// notification; a scan that exhausts the content reports the last match
/// as reached.
#[verifier::rlimit(50)]
pub fn apply_search(
    state: &mut AppState,
    lines: &Vec<String>,
    loaded: bool,
    requested_previous: bool,
) -> (r: Result<(), Error>)
    requires
        old(state).list.selected matches Some(i) ==> i < usize::MAX,
    ensures
        ({
            let lv = lines@.map_values(|s: String| s@);
            let ss = old(state).search_string@;
            let ci = !search_case_sensitive(ss, old(state).config.smart_case);
            let rev = crate::search::effective_reverse(
                requested_previous,
                old(state).search_reverse,
            );
            match r {
                Err(e) => *final(state) == *old(state) && match e@ {
                    ErrorV::Global(m) => m == "invalid regex"@ && !regex_valid(ss, ci),
                    ErrorV::StateIndex => regex_valid(ss, ci) && old(state).list.selected is None,
                    ErrorV::ReachedLastMachted => regex_valid(ss, ci) && (old(
                        state,
                    ).list.selected matches Some(cu) && (if rev {
                        forall|j: int|
                            0 <= j < cu && j < lv.len() ==> !regex_matches(
                                ss,
                                ci,
                                #[trigger] lv[j],
                            )
                    } else {
                        loaded && forall|j: int|
                            cu < j < lv.len() ==> !regex_matches(ss, ci, #[trigger] lv[j])
                    })),
                    _ => false,
                },
                Ok(_) => regex_valid(ss, ci) && old(state).list.selected is Some && ({
                    let cur = old(state).list.selected.unwrap() as int;
                    &&& *final(state) == (AppState {
                        list: final(state).list,
                        current_search_idx: final(state).current_search_idx,
                        notif: final(state).notif,
                        ..*old(state)
                    })
                    &&& match final(state).current_search_idx {
                        Some(i) => {
                            &&& !rev
                            &&& !loaded
                            &&& i == (if cur < lv.len() {
                                lv.len() as int
                            } else {
                                cur + 1
                            })
                            &&& forall|j: int|
                                cur < j < lv.len() ==> !regex_matches(ss, ci, #[trigger] lv[j])
                            &&& final(state).list == old(state).list
                            &&& notif_lookup(
                                notif_views(final(state).notif@),
                                NotifChannel::Search,
                            ) == Some("searching for `"@ + ss + "`..."@)
                            &&& forall|c2: NotifChannel|
                                c2 != NotifChannel::Search ==> #[trigger] notif_lookup(
                                    notif_views(final(state).notif@),
                                    c2,
                                ) == notif_lookup(notif_views(old(state).notif@), c2)
                        },
                        None => (final(state).list.selected matches Some(i) && (if rev {
                            i < cur && i < lv.len() && regex_matches(ss, ci, lv[i as int])
                                && forall|j: int|
                                i < j < cur && j < lv.len() ==> !regex_matches(
                                    ss,
                                    ci,
                                    #[trigger] lv[j],
                                )
                        } else {
                            cur < i < lv.len() && regex_matches(ss, ci, lv[i as int]) && forall|
                                j: int,
                            | cur < j < i ==> !regex_matches(ss, ci, #[trigger] lv[j])
                        })) && final(state).list.offset == old(state).list.offset
                            && final(state).notif == old(state).notif,
                    }
                }),
            }
        }),
{
    let ghost lv = lines@.map_values(|s: String| s@);
    let ghost ss = state.search_string@;
    let ghost ci = !search_case_sensitive(ss, state.config.smart_case);
    let pat = match build_search(&state.search_string, state.config.smart_case) {
        Ok(p) => p,
        Err(e) => {
            return Err(e);
        },
    };
    assert(pat.pattern_view() == ss && pat.ci() == ci);
    let cur = match state.idx() {
        Ok(i) => i,
        Err(e) => {
            return Err(e);
        },
    };
    let stored = state.search_reverse;
    let ghost rev = crate::search::effective_reverse(requested_previous, stored);
    match search_result(&pat, lines, loaded, cur, stored, requested_previous) {
        SearchOutcome::Found(i) => {
            proof {
                assert(regex_matches(ss, ci, lv[i as int])) by {
                    assert(matches_line(pat, lv, i as int));
                }
                if rev {
                    assert forall|j: int|
                        i < j < cur && j < lv.len() implies !regex_matches(
                        ss,
                        ci,
                        #[trigger] lv[j],
                    ) by {
                        assert(!matches_line(pat, lv, j));
                    }
                } else {
                    assert forall|j: int| cur < j < i implies !regex_matches(
                        ss,
                        ci,
                        #[trigger] lv[j],
                    ) by {
                        assert(!matches_line(pat, lv, j));
                    }
                }
            }
            state.list.select(Some(i));
            state.current_search_idx = None;
            Ok(())
        },
        SearchOutcome::Pending(i) => {
            proof {
                assert forall|j: int| cur < j < lv.len() implies !regex_matches(
                    ss,
                    ci,
                    #[trigger] lv[j],
                ) by {
                    assert(!matches_line(pat, lv, j));
                }
            }
            let mut msg = String::from_str("searching for `");
            msg.append(state.search_string.as_str());
            msg.append("`...");
            assert(msg@ =~= "searching for `"@ + ss + "`..."@);
            state.notify(NotifChannel::Search, Some(msg));
            state.current_search_idx = Some(i);
            Ok(())
        },
        SearchOutcome::Exhausted => {
            proof {
                if rev {
                    assert forall|j: int|
                        0 <= j < cur && j < lv.len() implies !regex_matches(
                        ss,
                        ci,
                        #[trigger] lv[j],
                    ) by {
                        assert(!matches_line(pat, lv, j));
                    }
                } else {
                    assert forall|j: int| cur < j < lv.len() implies !regex_matches(
                        ss,
                        ci,
                        #[trigger] lv[j],
                    ) by {
                        assert(!matches_line(pat, lv, j));
                    }
                }
            }
            Err(Error::ReachedLastMachted)
        },
    }
}

/// Append a pressed key's token to the combination and resolve it: an exact
/// binding fires and clears the combination; a combination that is a prefix
/// of some binding is kept; any other combination is dropped.
pub fn press_key(state: &mut AppState, scopes: &Vec<MappingScope>, key_str: &String) -> (r: Option<
    Action,
>)
    requires
        old(state).config.wf(),
    ensures
        ({
            let combo = old(state).key_combination@ + key_str@;
            let c = old(state).config@;
            &&& *final(state) == (AppState {
                key_combination: final(state).key_combination,
                ..*old(state)
            })
            &&& match r {
                Some(a) => combo.len() > 0 && first_exact(c, scopes@, combo) == Some(a@) && final(state).key_combination@ == Seq::<char>::empty(),
                None => combo.len() == 0 || (first_exact(c, scopes@, combo) is None && (if any_prefix(
                    c,
                    scopes@,
                    combo,
                ) {
                    final(state).key_combination@ == combo
                } else {
                    final(state).key_combination@ == Seq::<char>::empty()
                })),
            }
        }),
{
    state.key_combination.append(key_str.as_str());
    if state.key_combination.as_str().unicode_len() == 0 {
        return None;
    }
    let keys = state.key_combination.clone();
    match resolve_keys(&state.config, scopes, &keys) {
        KeyResolution::Matched(a) => {
            state.key_combination = String::new();
            Some(a)
        },
        KeyResolution::Pending => None,
        KeyResolution::NoBinding => {
            state.key_combination = String::new();
            None
        },
    }
}

} // verus!
