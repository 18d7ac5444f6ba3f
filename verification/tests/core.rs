//! Action parsing, configuration layering, key resolution and dispatch.

use gitrs::action::{Action, CommandType};
use gitrs::config::{Config, MappingScope};
use gitrs::dispatch::{
    after_command, line_edit_key, press_key, run_action_generic, Directive, EditKey,
};
use gitrs::errors::Error;
use gitrs::git::{FileStatus, StagedStatus};
use gitrs::keys::{normalize_key, resolve_keys, KeyResolution};
use gitrs::state::{AppState, InputState, NotifChannel};

fn fresh_state() -> AppState {
    AppState::new(Config::starting())
}

#[test]
fn parse_keywords() {
    assert_eq!(Action::from_str("up").unwrap(), Action::Up);
    assert_eq!(Action::from_str("down").unwrap(), Action::Down);
    assert_eq!(Action::from_str("reload").unwrap(), Action::Reload);
    assert_eq!(Action::from_str("half_page_down").unwrap(), Action::HalfPageDown);
    assert_eq!(Action::from_str("nop").unwrap(), Action::Nop);
    assert_eq!(
        Action::from_str("echo hello there").unwrap(),
        Action::Echo(String::from("hello there"))
    );
    assert_eq!(Action::from_str("up extra words").unwrap(), Action::Up);
}

#[test]
fn parse_goto_round_trip() {
    // a bare positive number is a one-based jump
    assert_eq!(Action::from_str("42").unwrap(), Action::GoTo(41));
    // zero is not a jump: it falls through to the shell-command branch and fails
    match Action::from_str("0") {
        Err(Error::ParseAction(s)) => assert_eq!(s, "0"),
        other => panic!("expected a parse error, got {:?}", other),
    }
    assert_eq!(Action::from_str("goto 42").unwrap(), Action::GoTo(41));
    assert_eq!(Action::from_str("goto 0").unwrap(), Action::GoTo(0));
    assert_eq!(Action::from_str("goto").unwrap(), Action::GoTo(0));
}

#[test]
fn parse_shell_commands() {
    assert_eq!(
        Action::from_str("!make all").unwrap(),
        Action::Command(CommandType::Sync, String::from("make all"))
    );
    assert_eq!(
        Action::from_str(">true").unwrap(),
        Action::Command(CommandType::SyncQuit, String::from("true"))
    );
    assert_eq!(
        Action::from_str("@xdg-open .").unwrap(),
        Action::Command(CommandType::Async, String::from("xdg-open ."))
    );
}

#[test]
fn parse_unknown_action() {
    match Action::from_str("bogus") {
        Err(Error::ParseAction(s)) => assert_eq!(s, "bogus"),
        other => panic!("expected a parse error, got {:?}", other),
    }
    // a number too large for the index type is no jump either
    assert!(Action::from_str("18446744073709551616").is_err());
}

#[test]
fn parse_scopes() {
    assert_eq!(MappingScope::from_str("global").unwrap(), MappingScope::Global);
    assert_eq!(
        MappingScope::from_str("files:new").unwrap(),
        MappingScope::Files(Some(FileStatus::New))
    );
    assert_eq!(
        MappingScope::from_str("status:staged:modified").unwrap(),
        MappingScope::Status(Some(StagedStatus::Staged), Some(FileStatus::Modified))
    );
    assert_eq!(
        MappingScope::from_str("status").unwrap(),
        MappingScope::Status(None, None)
    );
    match MappingScope::from_str("bogus") {
        Err(Error::ParseMappingScope(s)) => assert_eq!(s, "bogus"),
        other => panic!("expected a parse error, got {:?}", other),
    }
}

#[test]
fn binding_merge_user_wins() {
    let mut config = Config::starting();
    config.parse_map_line("global x quit", true).unwrap();
    config.parse_map_line("global y reload", true).unwrap();
    config.parse_map_line("global x first", false).unwrap();
    let bindings = config.get_bindings(MappingScope::Global);
    assert_eq!(bindings.len(), 2);
    let x = bindings.iter().find(|(k, _)| k == "x").unwrap();
    assert_eq!(x.1, Action::First);
    // a key only in the default layer is returned unchanged
    let y = bindings.iter().find(|(k, _)| k == "y").unwrap();
    assert_eq!(y.1, Action::Reload);
}

#[test]
fn binding_nop_removes_from_resolution() {
    let mut config = Config::starting();
    config.parse_map_line("global q quit", true).unwrap();
    config.parse_map_line("global q nop", false).unwrap();
    let scopes = vec![MappingScope::Global];
    let keys = String::from("q");
    assert_eq!(resolve_keys(&config, &scopes, &keys), KeyResolution::NoBinding);
}

#[test]
fn prefix_resolution() {
    let mut config = Config::starting();
    config.parse_map_line("global gg first", false).unwrap();
    let scopes = vec![MappingScope::Global];
    let mut state = AppState::new(config);

    // `g` is a strict prefix of `gg`: no action yet, buffer kept
    assert_eq!(press_key(&mut state, &scopes, &String::from("g")), None);
    assert_eq!(state.key_combination, "g");
    // the second `g` fires the binding and empties the buffer
    assert_eq!(press_key(&mut state, &scopes, &String::from("g")), Some(Action::First));
    assert_eq!(state.key_combination, "");
    // `g` then `x` matches nothing: no action, buffer dropped
    assert_eq!(press_key(&mut state, &scopes, &String::from("g")), None);
    assert_eq!(press_key(&mut state, &scopes, &String::from("x")), None);
    assert_eq!(state.key_combination, "");
}

#[test]
fn scope_precedence() {
    let mut config = Config::starting();
    config
        .parse_map_line("status:staged:modified d quit", false)
        .unwrap();
    config.parse_map_line("global d reload", false).unwrap();
    let scopes = vec![
        MappingScope::Status(Some(StagedStatus::Staged), Some(FileStatus::Modified)),
        MappingScope::Global,
    ];
    let keys = String::from("d");
    match resolve_keys(&config, &scopes, &keys) {
        KeyResolution::Matched(a) => assert_eq!(a, Action::Quit),
        other => panic!("expected the specific scope's action, got {:?}", other),
    }
}

#[test]
fn set_variables() {
    let mut config = Config::starting();
    config.parse_set_line("scrolloff 7").unwrap();
    assert_eq!(config.scrolloff, 7);
    config.parse_set_line("smart_case false").unwrap();
    assert!(!config.smart_case);
    config.parse_set_line("git /usr/bin/git").unwrap();
    assert_eq!(config.git_exe, "/usr/bin/git");
    // a numeric variable keeps its value when the new one does not parse
    config.parse_set_line("scrolloff many").unwrap();
    assert_eq!(config.scrolloff, 7);
    match config.parse_set_line("bogus 1") {
        Err(Error::ParseVariable(s)) => assert_eq!(s, "bogus 1"),
        other => panic!("expected a variable error, got {:?}", other),
    }
}

#[test]
fn buttons_quoting_and_order() {
    let mut config = Config::starting();
    config.parse_button_line("global \"Do it\" quit", true).unwrap();
    config.parse_button_line("global more reload", false).unwrap();
    let buttons = config.get_buttons(MappingScope::Global);
    // the user layer's buttons come first, then the default layer's
    assert_eq!(buttons.len(), 2);
    assert_eq!(buttons[0], (String::from("more"), Action::Reload));
    assert_eq!(buttons[1], (String::from("Do it"), Action::Quit));
    match config.parse_button_line("justone", false) {
        Err(Error::ParseButton(s)) => assert_eq!(s, "justone"),
        other => panic!("expected a button error, got {:?}", other),
    }
}

#[test]
fn config_line_dispatch() {
    let mut config = Config::starting();
    config.parse_line("map global z last", true).unwrap();
    config.parse_line("set scroll_step 4", true).unwrap();
    config.parse_line("# a comment line is ignored", true).unwrap();
    assert_eq!(config.scroll_step, 4);
    let bindings = config.get_bindings(MappingScope::Global);
    assert_eq!(bindings.len(), 1);
    assert_eq!(bindings[0].1, Action::Last);
}

#[test]
fn key_normalization() {
    assert_eq!(normalize_key(&String::from("a"), false), "a");
    assert_eq!(normalize_key(&String::from("esc"), false), "<esc>");
    assert_eq!(normalize_key(&String::from("u"), true), "<c-u>");
    assert_eq!(normalize_key(&String::from("pgup"), true), "<c-pgup>");
}

#[test]
fn dispatch_navigation() {
    let mut state = fresh_state();
    state.list.select(Some(5));
    assert_eq!(run_action_generic(&mut state, &Action::Up, 20).unwrap(), Directive::Nothing);
    assert_eq!(state.list.selected, Some(4));
    run_action_generic(&mut state, &Action::Down, 20).unwrap();
    assert_eq!(state.list.selected, Some(5));
    run_action_generic(&mut state, &Action::First, 20).unwrap();
    assert_eq!(state.list.selected, Some(0));
    run_action_generic(&mut state, &Action::GoTo(9), 20).unwrap();
    assert_eq!(state.list.selected, Some(9));
    run_action_generic(&mut state, &Action::HalfPageDown, 20).unwrap();
    assert_eq!(state.list.selected, Some(19));
    run_action_generic(&mut state, &Action::HalfPageUp, 20).unwrap();
    assert_eq!(state.list.selected, Some(9));
}

#[test]
fn dispatch_shift_line() {
    let mut state = fresh_state();
    state.list.select(Some(30));
    run_action_generic(&mut state, &Action::ShiftLineTop, 10).unwrap();
    assert_eq!(state.list.offset, 30);
    run_action_generic(&mut state, &Action::ShiftLineMiddle, 10).unwrap();
    assert_eq!(state.list.offset, 25);
    run_action_generic(&mut state, &Action::ShiftLineBottom, 10).unwrap();
    assert_eq!(state.list.offset, 20);
    // without a selection the realignment reports the index error
    let mut empty = fresh_state();
    assert_eq!(
        run_action_generic(&mut empty, &Action::ShiftLineTop, 10),
        Err(Error::StateIndex)
    );
}

#[test]
fn dispatch_quit_and_command() {
    let mut state = fresh_state();
    run_action_generic(&mut state, &Action::Quit, 10).unwrap();
    assert!(state.quit);

    let mut state = fresh_state();
    let action = Action::Command(CommandType::Sync, String::from("true"));
    match run_action_generic(&mut state, &action, 10).unwrap() {
        Directive::RunCommand(kind, template) => {
            assert_eq!(kind, CommandType::Sync);
            assert_eq!(template, "true");
        },
        other => panic!("expected a command directive, got {:?}", other),
    }
    assert_eq!(after_command(&mut state, CommandType::Sync), Directive::Reload);
    assert!(!state.quit);
    assert_eq!(after_command(&mut state, CommandType::SyncQuit), Directive::Nothing);
    assert!(state.quit);
}

#[test]
fn dispatch_search_mode() {
    let mut state = fresh_state();
    state.search_string = String::from("old");
    run_action_generic(&mut state, &Action::SearchReverse, 10).unwrap();
    assert_eq!(state.input_state, InputState::Search);
    assert!(state.search_reverse);
    assert_eq!(state.search_string, "");
    assert_eq!(state.edit_cursor, 0);
}

#[test]
fn dispatch_view_specific_refused() {
    let mut state = fresh_state();
    match run_action_generic(&mut state, &Action::StashPop, 10) {
        Err(Error::Global(m)) => assert_eq!(m, "cannot run `StashPop` in this context"),
        other => panic!("expected a context error, got {:?}", other),
    }
}

#[test]
fn dispatch_echo_notifies() {
    let mut state = fresh_state();
    run_action_generic(&mut state, &Action::Echo(String::from("hi")), 10).unwrap();
    let slot = state.notif.iter().find(|(c, _)| *c == NotifChannel::Echo).unwrap();
    assert_eq!(slot.1, "echo: hi");
}

#[test]
fn dispatch_live_map() {
    let mut state = fresh_state();
    run_action_generic(&mut state, &Action::MapBinding(String::from("global k up")), 10).unwrap();
    let bindings = state.config.get_bindings(MappingScope::Global);
    assert_eq!(bindings.len(), 1);
    assert_eq!(bindings[0], (String::from("k"), Action::Up));
    run_action_generic(&mut state, &Action::SetVariable(String::from("menu_bar false")), 10)
        .unwrap();
    assert!(!state.config.menu_bar);
}

#[test]
fn line_editor_typing_and_commit() {
    let mut state = fresh_state();
    run_action_generic(&mut state, &Action::TypeCommand, 10).unwrap();
    assert_eq!(state.input_state, InputState::Command);
    for c in "quit".chars() {
        line_edit_key(&mut state, EditKey::Char(c), false).unwrap();
    }
    assert_eq!(state.command_string, "quit");
    assert_eq!(state.edit_cursor, 4);
    let committed = line_edit_key(&mut state, EditKey::Enter, false).unwrap();
    assert_eq!(committed, Some(Action::Quit));
    assert_eq!(state.input_state, InputState::App);
}

#[test]
fn line_editor_movement_and_deletion() {
    let mut state = fresh_state();
    run_action_generic(&mut state, &Action::Search, 10).unwrap();
    for c in "hello world".chars() {
        line_edit_key(&mut state, EditKey::Char(c), false).unwrap();
    }
    // word-wise left lands at the start of `world`
    line_edit_key(&mut state, EditKey::Left, true).unwrap();
    assert_eq!(state.edit_cursor, 6);
    line_edit_key(&mut state, EditKey::Left, false).unwrap();
    assert_eq!(state.edit_cursor, 5);
    // word-wise right first crosses the space, then the word
    line_edit_key(&mut state, EditKey::Right, true).unwrap();
    assert_eq!(state.edit_cursor, 6);
    line_edit_key(&mut state, EditKey::Right, true).unwrap();
    assert_eq!(state.edit_cursor, 11);
    // word-wise backspace removes `world` but keeps the space before it
    line_edit_key(&mut state, EditKey::Backspace, true).unwrap();
    assert_eq!(state.search_string, "hello ");
    assert_eq!(state.edit_cursor, 6);
    line_edit_key(&mut state, EditKey::Backspace, false).unwrap();
    assert_eq!(state.search_string, "hello");
    // Escape abandons the search text
    line_edit_key(&mut state, EditKey::Esc, false).unwrap();
    assert_eq!(state.search_string, "");
    assert_eq!(state.input_state, InputState::App);
}

#[test]
fn line_editor_commits_search() {
    let mut state = fresh_state();
    run_action_generic(&mut state, &Action::Search, 10).unwrap();
    line_edit_key(&mut state, EditKey::Char('x'), false).unwrap();
    let committed = line_edit_key(&mut state, EditKey::Enter, false).unwrap();
    assert_eq!(committed, Some(Action::NextSearchResult));
    // the committed search text stays for the pending search
    assert_eq!(state.search_string, "x");
}

#[test]
fn button_bar_cascade() {
    let mut config = Config::starting();
    config.parse_button_line("global quitbtn quit", false).unwrap();
    config.parse_button_line("status reloadbtn reload", false).unwrap();
    let scopes = vec![MappingScope::Status(None, None), MappingScope::Global];
    // the most general scope's buttons come first
    let bar = gitrs::config::collect_buttons(&config, &scopes);
    assert_eq!(
        bar,
        vec![
            (String::from("quitbtn"), Action::Quit),
            (String::from("reloadbtn"), Action::Reload),
        ]
    );
    // with the menu bar off, nothing is shown
    config.parse_set_line("menu_bar false").unwrap();
    assert_eq!(gitrs::config::collect_buttons(&config, &scopes), vec![]);
}

#[test]
fn input_manager_reset() {
    let mut input = gitrs::state::InputManager::new();
    input.key_combination = String::from("gg");
    // marked for reset: the next press starts a fresh combination
    input.begin_press();
    assert_eq!(input.key_combination, "");
    assert!(input.reset_key_combination);
    // a one-shot keep survives exactly one press
    input.key_combination = String::from("g");
    input.reset_key_combination = false;
    input.begin_press();
    assert_eq!(input.key_combination, "g");
    assert!(input.reset_key_combination);
}
