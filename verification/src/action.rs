//! The closed vocabulary of user-triggerable operations, and the parser
//! from free action text (a config line or a typed command) to an action.

use vstd::prelude::*;
use vstd::string::StringExecFns;

use crate::errors::{Error, ErrorV};
use crate::text::{
    chars_eq_str, chars_to_string, find_first, first_idx, lemma_first_idx, parse_usize,
    parse_usize_spec, str_to_chars, subvec,
};

verus! {

/// How a shell command is run: detached, in the foreground, or in the
/// foreground followed by quitting the application.
#[derive(Clone, Copy, PartialEq, Eq, Structural, Debug)]
pub enum CommandType {
    Async,
    Sync,
    SyncQuit,
}

/// One user-triggerable operation.
#[derive(Clone, PartialEq, Debug)]
pub enum Action {
    Reload,
    Up,
    Down,
    First,
    Last,
    Quit,
    HalfPageUp,
    HalfPageDown,
    ShiftLineMiddle,
    ShiftLineTop,
    ShiftLineBottom,
    Search,
    SearchReverse,
    NextSearchResult,
    PreviousSearchResult,
    TypeCommand,
    Command(CommandType, String),
    GoTo(usize),
    StageUnstageFile,
    StageUnstageFiles,
    StatusSwitchView,
    FocusUnstagedView,
    FocusStagedView,
    OpenGitShow,
    OpenLogApp,
    OpenShowApp,
    NextCommitBlame,
    PreviousCommitBlame,
    PagerNextCommit,
    PreviousCommit,
    StashPop,
    StashApply,
    StashDrop,
    Echo(String),
    SetVariable(String),
    MapBinding(String),
    Button(String),
    Nop,
}

/// Mathematical model of an [`Action`].
pub enum ActionV {
    Reload,
    Up,
    Down,
    First,
    Last,
    Quit,
    HalfPageUp,
    HalfPageDown,
    ShiftLineMiddle,
    ShiftLineTop,
    ShiftLineBottom,
    Search,
    SearchReverse,
    NextSearchResult,
    PreviousSearchResult,
    TypeCommand,
    Command(CommandType, Seq<char>),
    GoTo(int),
    StageUnstageFile,
    StageUnstageFiles,
    StatusSwitchView,
    FocusUnstagedView,
    FocusStagedView,
    OpenGitShow,
    OpenLogApp,
    OpenShowApp,
    NextCommitBlame,
    PreviousCommitBlame,
    PagerNextCommit,
    PreviousCommit,
    StashPop,
    StashApply,
    StashDrop,
    Echo(Seq<char>),
    SetVariable(Seq<char>),
    MapBinding(Seq<char>),
    Button(Seq<char>),
    Nop,
}

impl View for Action {
    type V = ActionV;

    open spec fn view(&self) -> ActionV {
        match self {
            Action::Reload => ActionV::Reload,
            Action::Up => ActionV::Up,
            Action::Down => ActionV::Down,
            Action::First => ActionV::First,
            Action::Last => ActionV::Last,
            Action::Quit => ActionV::Quit,
            Action::HalfPageUp => ActionV::HalfPageUp,
            Action::HalfPageDown => ActionV::HalfPageDown,
            Action::ShiftLineMiddle => ActionV::ShiftLineMiddle,
            Action::ShiftLineTop => ActionV::ShiftLineTop,
            Action::ShiftLineBottom => ActionV::ShiftLineBottom,
            Action::Search => ActionV::Search,
            Action::SearchReverse => ActionV::SearchReverse,
            Action::NextSearchResult => ActionV::NextSearchResult,
            Action::PreviousSearchResult => ActionV::PreviousSearchResult,
            Action::TypeCommand => ActionV::TypeCommand,
            Action::Command(k, s) => ActionV::Command(*k, s@),
            Action::GoTo(n) => ActionV::GoTo(*n as int),
            Action::StageUnstageFile => ActionV::StageUnstageFile,
            Action::StageUnstageFiles => ActionV::StageUnstageFiles,
            Action::StatusSwitchView => ActionV::StatusSwitchView,
            Action::FocusUnstagedView => ActionV::FocusUnstagedView,
            Action::FocusStagedView => ActionV::FocusStagedView,
            Action::OpenGitShow => ActionV::OpenGitShow,
            Action::OpenLogApp => ActionV::OpenLogApp,
            Action::OpenShowApp => ActionV::OpenShowApp,
            Action::NextCommitBlame => ActionV::NextCommitBlame,
            Action::PreviousCommitBlame => ActionV::PreviousCommitBlame,
            Action::PagerNextCommit => ActionV::PagerNextCommit,
            Action::PreviousCommit => ActionV::PreviousCommit,
            Action::StashPop => ActionV::StashPop,
            Action::StashApply => ActionV::StashApply,
            Action::StashDrop => ActionV::StashDrop,
            Action::Echo(s) => ActionV::Echo(s@),
            Action::SetVariable(s) => ActionV::SetVariable(s@),
            Action::MapBinding(s) => ActionV::MapBinding(s@),
            Action::Button(s) => ActionV::Button(s@),
            Action::Nop => ActionV::Nop,
        }
    }
}

/// The first word of `s`: everything before the first space.
pub open spec fn key_of(s: Seq<char>) -> Seq<char> {
    s.subrange(0, first_idx(s, ' '))
}

/// Everything after the first space of `s`; empty when there is no space.
pub open spec fn params_of(s: Seq<char>) -> Seq<char> {
    if first_idx(s, ' ') < s.len() {
        s.subrange(first_idx(s, ' ') + 1, s.len() as int)
    } else {
        Seq::empty()
    }
}

/// The shell-command fallback of the action grammar: a `!`, `>` or `@`
/// prefix selects the execution policy, the rest is the command template.
pub open spec fn shell_action_spec(s: Seq<char>) -> Option<ActionV> {
    if s.len() > 0 && s[0] == '!' {
        Some(ActionV::Command(CommandType::Sync, s.drop_first()))
    } else if s.len() > 0 && s[0] == '>' {
        Some(ActionV::Command(CommandType::SyncQuit, s.drop_first()))
    } else if s.len() > 0 && s[0] == '@' {
        Some(ActionV::Command(CommandType::Async, s.drop_first()))
    } else {
        None
    }
}

/// What action text `s` denotes: a keyword (with the rest of the line as
/// its parameter where the keyword takes one), a bare positive line number,
/// or a shell command; `None` when nothing matches.
pub open spec fn parse_action_spec(s: Seq<char>) -> Option<ActionV> {
    let key = key_of(s);
    let params = params_of(s);
    if key == "up"@ {
        Some(ActionV::Up)
    } else if key == "down"@ {
        Some(ActionV::Down)
    } else if key == "reload"@ {
        Some(ActionV::Reload)
    } else if key == "first"@ {
        Some(ActionV::First)
    } else if key == "last"@ {
        Some(ActionV::Last)
    } else if key == "quit"@ {
        Some(ActionV::Quit)
    } else if key == "half_page_up"@ {
        Some(ActionV::HalfPageUp)
    } else if key == "half_page_down"@ {
        Some(ActionV::HalfPageDown)
    } else if key == "shift_line_middle"@ {
        Some(ActionV::ShiftLineMiddle)
    } else if key == "shift_line_top"@ {
        Some(ActionV::ShiftLineTop)
    } else if key == "shift_line_bottom"@ {
        Some(ActionV::ShiftLineBottom)
    } else if key == "next_search_result"@ {
        Some(ActionV::NextSearchResult)
    } else if key == "previous_search_result"@ {
        Some(ActionV::PreviousSearchResult)
    } else if key == "type_command"@ {
        Some(ActionV::TypeCommand)
    } else if key == "search"@ {
        Some(ActionV::Search)
    } else if key == "search_reverse"@ {
        Some(ActionV::SearchReverse)
    } else if key == "stage_unstage_file"@ {
        Some(ActionV::StageUnstageFile)
    } else if key == "stage_unstage_files"@ {
        Some(ActionV::StageUnstageFiles)
    } else if key == "status_switch_view"@ {
        Some(ActionV::StatusSwitchView)
    } else if key == "focus_unstaged_view"@ {
        Some(ActionV::FocusUnstagedView)
    } else if key == "focus_staged_view"@ {
        Some(ActionV::FocusStagedView)
    } else if key == "open_git_show"@ {
        Some(ActionV::OpenGitShow)
    } else if key == "open_log_app"@ {
        Some(ActionV::OpenLogApp)
    } else if key == "open_show_app"@ {
        Some(ActionV::OpenShowApp)
    } else if key == "next_commit_blame"@ {
        Some(ActionV::NextCommitBlame)
    } else if key == "previous_commit_blame"@ {
        Some(ActionV::PreviousCommitBlame)
    } else if key == "pager_next_commit"@ {
        Some(ActionV::PagerNextCommit)
    } else if key == "pager_previous_commit"@ {
        Some(ActionV::PreviousCommit)
    } else if key == "stash_pop"@ {
        Some(ActionV::StashPop)
    } else if key == "stash_apply"@ {
        Some(ActionV::StashApply)
    } else if key == "stash_drop"@ {
        Some(ActionV::StashDrop)
    } else if key == "echo"@ {
        Some(ActionV::Echo(params))
    } else if key == "set"@ {
        Some(ActionV::SetVariable(params))
    } else if key == "map"@ {
        Some(ActionV::MapBinding(params))
    } else if key == "button"@ {
        Some(ActionV::Button(params))
    } else if key == "nop"@ {
        Some(ActionV::Nop)
    } else if key == "goto"@ {
        match parse_usize_spec(params) {
            Some(n) => if n > 0 {
                Some(ActionV::GoTo(n - 1))
            } else {
                Some(ActionV::GoTo(0))
            },
            None => Some(ActionV::GoTo(0)),
        }
    } else {
        match parse_usize_spec(s) {
            Some(n) => if n > 0 {
                Some(ActionV::GoTo(n - 1))
            } else {
                shell_action_spec(s)
            },
            None => shell_action_spec(s),
        }
    }
}

impl Action {
    /// A copy of this action, equal to it.
    pub fn duplicate(&self) -> (r: Action)
        ensures
            r == *self,
    {
        match self {
            Action::Reload => Action::Reload,
            Action::Up => Action::Up,
            Action::Down => Action::Down,
            Action::First => Action::First,
            Action::Last => Action::Last,
            Action::Quit => Action::Quit,
            Action::HalfPageUp => Action::HalfPageUp,
            Action::HalfPageDown => Action::HalfPageDown,
            Action::ShiftLineMiddle => Action::ShiftLineMiddle,
            Action::ShiftLineTop => Action::ShiftLineTop,
            Action::ShiftLineBottom => Action::ShiftLineBottom,
            Action::Search => Action::Search,
            Action::SearchReverse => Action::SearchReverse,
            Action::NextSearchResult => Action::NextSearchResult,
            Action::PreviousSearchResult => Action::PreviousSearchResult,
            Action::TypeCommand => Action::TypeCommand,
            Action::Command(k, s) => Action::Command(*k, s.clone()),
            Action::GoTo(n) => Action::GoTo(*n),
            Action::StageUnstageFile => Action::StageUnstageFile,
            Action::StageUnstageFiles => Action::StageUnstageFiles,
            Action::StatusSwitchView => Action::StatusSwitchView,
            Action::FocusUnstagedView => Action::FocusUnstagedView,
            Action::FocusStagedView => Action::FocusStagedView,
            Action::OpenGitShow => Action::OpenGitShow,
            Action::OpenLogApp => Action::OpenLogApp,
            Action::OpenShowApp => Action::OpenShowApp,
            Action::NextCommitBlame => Action::NextCommitBlame,
            Action::PreviousCommitBlame => Action::PreviousCommitBlame,
            Action::PagerNextCommit => Action::PagerNextCommit,
            Action::PreviousCommit => Action::PreviousCommit,
            Action::StashPop => Action::StashPop,
            Action::StashApply => Action::StashApply,
            Action::StashDrop => Action::StashDrop,
            Action::Echo(s) => Action::Echo(s.clone()),
            Action::SetVariable(s) => Action::SetVariable(s.clone()),
            Action::MapBinding(s) => Action::MapBinding(s.clone()),
            Action::Button(s) => Action::Button(s.clone()),
            Action::Nop => Action::Nop,
        }
    }

    /// Parse action text, exactly as the configuration grammar defines it.
    pub fn from_str(s: &str) -> (r: Result<Action, Error>)
        ensures
            match r {
                Ok(a) => parse_action_spec(s@) == Some(a@),
                Err(e) => parse_action_spec(s@) is None && e@ == ErrorV::ParseAction(s@),
            },
    {
        let v = str_to_chars(s);
        proof {
            lemma_first_idx(v@, ' ');
        }
        let sp = find_first(&v, ' ');
        let key = subvec(&v, 0, sp);
        let params = if sp < v.len() {
            subvec(&v, sp + 1, v.len())
        } else {
            Vec::new()
        };
        assert(key@ == key_of(s@));
        assert(params@ == params_of(s@));
        if chars_eq_str(&key, "up") {
            Ok(Action::Up)
        } else if chars_eq_str(&key, "down") {
            Ok(Action::Down)
        } else if chars_eq_str(&key, "reload") {
            Ok(Action::Reload)
        } else if chars_eq_str(&key, "first") {
            Ok(Action::First)
        } else if chars_eq_str(&key, "last") {
            Ok(Action::Last)
        } else if chars_eq_str(&key, "quit") {
            Ok(Action::Quit)
        } else if chars_eq_str(&key, "half_page_up") {
            Ok(Action::HalfPageUp)
        } else if chars_eq_str(&key, "half_page_down") {
            Ok(Action::HalfPageDown)
        } else if chars_eq_str(&key, "shift_line_middle") {
            Ok(Action::ShiftLineMiddle)
        } else if chars_eq_str(&key, "shift_line_top") {
            Ok(Action::ShiftLineTop)
        } else if chars_eq_str(&key, "shift_line_bottom") {
            Ok(Action::ShiftLineBottom)
        } else if chars_eq_str(&key, "next_search_result") {
            Ok(Action::NextSearchResult)
        } else if chars_eq_str(&key, "previous_search_result") {
            Ok(Action::PreviousSearchResult)
        } else if chars_eq_str(&key, "type_command") {
            Ok(Action::TypeCommand)
        } else if chars_eq_str(&key, "search") {
            Ok(Action::Search)
        } else if chars_eq_str(&key, "search_reverse") {
            Ok(Action::SearchReverse)
        } else if chars_eq_str(&key, "stage_unstage_file") {
            Ok(Action::StageUnstageFile)
        } else if chars_eq_str(&key, "stage_unstage_files") {
            Ok(Action::StageUnstageFiles)
        } else if chars_eq_str(&key, "status_switch_view") {
            Ok(Action::StatusSwitchView)
        } else if chars_eq_str(&key, "focus_unstaged_view") {
            Ok(Action::FocusUnstagedView)
        } else if chars_eq_str(&key, "focus_staged_view") {
            Ok(Action::FocusStagedView)
        } else if chars_eq_str(&key, "open_git_show") {
            Ok(Action::OpenGitShow)
        } else if chars_eq_str(&key, "open_log_app") {
            Ok(Action::OpenLogApp)
        } else if chars_eq_str(&key, "open_show_app") {
            Ok(Action::OpenShowApp)
        } else if chars_eq_str(&key, "next_commit_blame") {
            Ok(Action::NextCommitBlame)
        } else if chars_eq_str(&key, "previous_commit_blame") {
            Ok(Action::PreviousCommitBlame)
        } else if chars_eq_str(&key, "pager_next_commit") {
            Ok(Action::PagerNextCommit)
        } else if chars_eq_str(&key, "pager_previous_commit") {
            Ok(Action::PreviousCommit)
        } else if chars_eq_str(&key, "stash_pop") {
            Ok(Action::StashPop)
        } else if chars_eq_str(&key, "stash_apply") {
            Ok(Action::StashApply)
        } else if chars_eq_str(&key, "stash_drop") {
            Ok(Action::StashDrop)
        } else if chars_eq_str(&key, "echo") {
            Ok(Action::Echo(chars_to_string(&params)))
        } else if chars_eq_str(&key, "set") {
            Ok(Action::SetVariable(chars_to_string(&params)))
        } else if chars_eq_str(&key, "map") {
            Ok(Action::MapBinding(chars_to_string(&params)))
        } else if chars_eq_str(&key, "button") {
            Ok(Action::Button(chars_to_string(&params)))
        } else if chars_eq_str(&key, "nop") {
            Ok(Action::Nop)
        } else if chars_eq_str(&key, "goto") {
            match parse_usize(&params) {
                Some(n) if n > 0 => Ok(Action::GoTo(n - 1)),
                _ => Ok(Action::GoTo(0)),
            }
        } else {
            match parse_usize(&v) {
                Some(n) if n > 0 => Ok(Action::GoTo(n - 1)),
                _ => Self::shell_action(&v, s),
            }
        }
    }

    /// The shell-command fallback of [`Action::from_str`].
    fn shell_action(v: &Vec<char>, s: &str) -> (r: Result<Action, Error>)
        requires
            v@ == s@,
        ensures
            match r {
                Ok(a) => shell_action_spec(s@) == Some(a@),
                Err(e) => shell_action_spec(s@) is None && e@ == ErrorV::ParseAction(s@),
            },
    {
        if v.len() == 0 {
            return Err(Error::ParseAction(String::from_str(s)));
        }
        let first = v[0];
        let kind = match first {
            '!' => CommandType::Sync,
            '>' => CommandType::SyncQuit,
            '@' => CommandType::Async,
            _ => {
                return Err(Error::ParseAction(String::from_str(s)));
            },
        };
        let rest = subvec(v, 1, v.len());
        assert(rest@ =~= s@.drop_first());
        Ok(Action::Command(kind, chars_to_string(&rest)))
    }
}

} // verus!
