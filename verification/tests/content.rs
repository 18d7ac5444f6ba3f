//! Search, streaming, viewport arithmetic, command templates, and the
//! line parsers of the pager and the status view.

use gitrs::command::{substitute_command, wrap_shell_command};
use gitrs::config::Config;
use gitrs::dispatch::{apply_search, continue_search};
use gitrs::errors::Error;
use gitrs::git::{adapt_repo_root, FileStatus, GitFile, GitOp, StagedStatus};
use gitrs::loader::{clean_buggy_characters, StreamBuffer};
use gitrs::pager::{
    commit_in_line, detect_graph, file_in_line, guess_log_style, line_number_in_line,
    remove_graph_symbols, resolve_rev_guess, strip_ansi_codes, LogStyle, StyleGuess,
};
use gitrs::search::{build_search, continue_search_scan, search_result, SearchOutcome};
use gitrs::state::{AppState, ListCursor, NotifChannel};
use gitrs::status::{
    compute_tables, parse_git_status, switch_staged_status, toggle_stage_git_file,
};
use gitrs::viewport::{adapt_index_in_frame, resolve_offset, scroll_position, wheel_offset};

fn lines(v: &[&str]) -> Vec<String> {
    v.iter().map(|s| String::from(*s)).collect()
}

#[test]
fn search_pending_then_resumes() {
    let pat = build_search(&String::from("needle"), true).unwrap();
    let three = lines(&["a", "b", "c"]);
    // a forward search over three loaded lines, none matching, goes pending at 3
    let outcome = continue_search_scan(&pat, &three, false, 0);
    assert_eq!(outcome, SearchOutcome::Pending(3));
    // once the source has grown, resuming from the stored index finds line 4
    let five = lines(&["a", "b", "c", "d", "a needle here"]);
    assert_eq!(continue_search_scan(&pat, &five, false, 3), SearchOutcome::Found(4));
}

#[test]
fn search_exhausts_when_loaded() {
    let pat = build_search(&String::from("needle"), true).unwrap();
    let three = lines(&["a", "b", "c"]);
    assert_eq!(continue_search_scan(&pat, &three, true, 0), SearchOutcome::Exhausted);
}

#[test]
fn search_reverse_xor_moves_forward() {
    let pat = build_search(&String::from("x"), true).unwrap();
    let content = lines(&["x one", "plain", "plain", "x two"]);
    // a backward-mode search asked for "previous" scans forward
    let outcome = search_result(&pat, &content, true, 1, true, true);
    match outcome {
        SearchOutcome::Found(i) => assert!(i > 1 && i == 3),
        other => panic!("expected a forward match, got {:?}", other),
    }
    // and asked for "next" it scans backward
    let outcome = search_result(&pat, &content, true, 1, true, false);
    assert_eq!(outcome, SearchOutcome::Found(0));
}

#[test]
fn search_smart_case() {
    // a lowercase pattern matches case-insensitively
    let pat = build_search(&String::from("abc"), true).unwrap();
    assert!(pat.is_match("xABCy"));
    // an uppercase letter makes the pattern case-sensitive
    let pat = build_search(&String::from("Abc"), true).unwrap();
    assert!(!pat.is_match("abc"));
    assert!(pat.is_match("Abc"));
    // with smart case off, the search is case-insensitive throughout
    let pat = build_search(&String::from("abc"), false).unwrap();
    assert!(pat.is_match("ABC"));
    let pat = build_search(&String::from("Abc"), false).unwrap();
    assert!(pat.is_match("abc"));
}

#[test]
fn search_invalid_pattern() {
    match build_search(&String::from("["), true) {
        Err(Error::Global(m)) => assert_eq!(m, "invalid regex"),
        Err(_) => panic!("expected the invalid-regex error"),
        Ok(_) => panic!("an unclosed class must not compile"),
    }
}

#[test]
fn search_state_machine() {
    let mut state = AppState::new(Config::starting());
    state.search_string = String::from("hit");
    state.list.select(Some(0));
    let content = lines(&["first", "a hit", "last"]);
    apply_search(&mut state, &content, true, false).unwrap();
    assert_eq!(state.list.selected, Some(1));
    // no further match: the last-match condition is reported
    assert_eq!(apply_search(&mut state, &content, true, false), Err(Error::ReachedLastMachted));
    // a pending search resumes through the tick path
    state.list.select(Some(0));
    state.search_string = String::from("later");
    apply_search(&mut state, &content, false, false).unwrap();
    assert_eq!(state.current_search_idx, Some(3));
    // the pending search announces itself
    let slot = state.notif.iter().find(|(c, _)| *c == NotifChannel::Search).unwrap();
    assert_eq!(slot.1, "searching for `later`...");
    let grown = lines(&["first", "a hit", "last", "now later"]);
    continue_search(&mut state, &grown, false, 3).unwrap();
    assert_eq!(state.list.selected, Some(3));
    assert_eq!(state.current_search_idx, None);
}

#[test]
fn search_exhaustion_notifies_on_tick() {
    let mut state = AppState::new(Config::starting());
    state.search_string = String::from("absent");
    let content = lines(&["a", "b"]);
    continue_search(&mut state, &content, true, 0).unwrap();
    let slot = state.notif.iter().find(|(c, _)| *c == NotifChannel::Error).unwrap();
    assert_eq!(slot.1, "reached last match");
    assert_eq!(state.current_search_idx, None);
}

#[test]
fn loader_grows_monotonically() {
    let mut buffer = StreamBuffer::starting(String::from("first"));
    assert_eq!(buffer.len(), 1);
    assert!(!buffer.is_fully_loaded());
    buffer.append_batch(lines(&["second", "third"]));
    assert_eq!(buffer.len(), 3);
    assert_eq!(buffer.get_line(1).unwrap(), "second");
    assert!(buffer.get_line(3).is_none());
    assert!(!buffer.is_fully_loaded());
    buffer.append_batch(lines(&["fourth"]));
    assert_eq!(buffer.len(), 4);
    // the flag flips once, at the end, and the lines stay
    buffer.finish();
    assert!(buffer.is_fully_loaded());
    assert_eq!(buffer.len(), 4);
    assert_eq!(buffer.get_line(0).unwrap(), "first");
}

#[test]
fn loader_line_hygiene() {
    assert_eq!(clean_buggy_characters("\ta\rb"), "    a^Mb");
    assert_eq!(clean_buggy_characters("plain"), "plain");
}

#[test]
fn viewport_margins() {
    // the selection sits within the scroll-off band after a resolve
    let offset = resolve_offset(10, 0, 7, 2, 100);
    assert_eq!(offset, 6);
    assert!(offset <= 10 && 10 <= offset + 7 - 2 - 1);
    // near the top the offset retreats instead
    assert_eq!(resolve_offset(1, 5, 7, 2, 100), 0);
    // clamped so a full frame of content stays visible
    assert_eq!(resolve_offset(99, 0, 10, 2, 100), 90);
}

#[test]
fn viewport_adapt_index() {
    assert_eq!(adapt_index_in_frame(0, 2, 0, 10, 100), 2);
    assert_eq!(adapt_index_in_frame(0, 2, 50, 10, 100), 7);
    assert_eq!(adapt_index_in_frame(0, 2, 50, 10, 3), 2);
}

#[test]
fn viewport_scrolling() {
    let (offset, index) = scroll_position(true, 0, 3, 2, 0, 10, 100);
    assert_eq!(offset, 3);
    assert_eq!(index, 5);
    let (offset, _) = scroll_position(false, 2, 3, 2, 5, 10, 100);
    assert_eq!(offset, 0);
    assert_eq!(wheel_offset(95, 10, true, 2, 100), 97);
    assert_eq!(wheel_offset(5, 10, false, 2, 100), 0);
    // a down-step never carries the offset past the clamped bottom
    let (offset, index) = scroll_position(true, 95, 10, 2, 0, 10, 100);
    assert_eq!(offset, 97);
    assert_eq!(index, 99);
}

#[test]
fn search_reverse_beyond_content() {
    // a backward scan from a selection past the loaded lines walks the
    // lines that exist
    let pat = build_search(&String::from("x"), true).unwrap();
    let content = lines(&["plain", "an x here"]);
    assert_eq!(search_result(&pat, &content, false, 10, false, true), SearchOutcome::Found(1));
    let none = lines(&["plain", "plain"]);
    assert_eq!(search_result(&pat, &none, false, 10, false, true), SearchOutcome::Exhausted);
}

#[test]
fn command_substitution() {
    let out = substitute_command(
        &String::from("echo %(file) %(rev)"),
        &Some(String::from("a.rs")),
        &Some(String::from("deadbeef")),
        &None,
        &None,
        &String::from("xsel"),
        &String::from("git"),
    );
    assert_eq!(out, "echo a.rs deadbeef");
    // an unset placeholder stays verbatim
    let out = substitute_command(
        &String::from("sed -n %(line)p %(file)"),
        &None,
        &None,
        &None,
        &None,
        &String::from("xsel"),
        &String::from("git"),
    );
    assert_eq!(out, "sed -n %(line)p %(file)");
    // a line number is rendered in decimal
    let out = substitute_command(
        &String::from("+%(line) %(git)"),
        &None,
        &None,
        &Some(42),
        &None,
        &String::from("xsel"),
        &String::from("git"),
    );
    assert_eq!(out, "+42 git");
}

#[test]
fn command_shell_wrapper() {
    assert_eq!(
        wrap_shell_command(&String::from("ls")),
        "ls || (echo \"Command failed. Press enter to continue...\"; read)"
    );
}

#[test]
fn pager_style_guessing() {
    assert!(matches!(
        guess_log_style(&String::from("commit abc123")),
        StyleGuess::Known(LogStyle::Standard)
    ));
    assert!(matches!(
        guess_log_style(&String::from("diff --git a/x b/x")),
        StyleGuess::Known(LogStyle::Diff)
    ));
    assert!(matches!(
        guess_log_style(&String::from("abc123 HEAD@{0}: commit: x")),
        StyleGuess::Known(LogStyle::Reflog)
    ));
    assert!(matches!(
        guess_log_style(&String::from("stash@{0}: WIP on main")),
        StyleGuess::Known(LogStyle::StashPager)
    ));
    match guess_log_style(&String::from("abc123 first words")) {
        StyleGuess::CheckRev(rev) => assert_eq!(rev, "abc123"),
        other => panic!("expected a revision check, got {:?}", style_name(&other)),
    }
    assert_eq!(resolve_rev_guess(true), LogStyle::OneLine);
    assert_eq!(resolve_rev_guess(false), LogStyle::Unknown);
}

fn style_name(g: &StyleGuess) -> &'static str {
    match g {
        StyleGuess::Known(_) => "known",
        StyleGuess::CheckRev(_) => "check",
    }
}

#[test]
fn pager_graph_handling() {
    assert!(detect_graph(&String::from("* abc123 message")));
    assert!(!detect_graph(&String::from("commit abc123")));
    let mut line = String::from("| * commit abc");
    remove_graph_symbols(&mut line);
    assert_eq!(line, "commit abc");
}

#[test]
fn pager_commit_extraction() {
    assert_eq!(
        commit_in_line(LogStyle::Standard, &String::from("commit abc123 (HEAD -> main)")),
        Some(String::from("abc123"))
    );
    assert_eq!(commit_in_line(LogStyle::Standard, &String::from("Author: me")), None);
    assert_eq!(
        commit_in_line(LogStyle::OneLine, &String::from("abc123 fix the thing")),
        Some(String::from("abc123"))
    );
    assert_eq!(
        commit_in_line(LogStyle::StashPager, &String::from("stash@{2}: WIP on main")),
        Some(String::from("stash@{2}"))
    );
    assert_eq!(
        commit_in_line(LogStyle::Reflog, &String::from("abc123 HEAD@{1}: pull")),
        Some(String::from("abc123"))
    );
    assert_eq!(
        commit_in_line(LogStyle::Diff, &String::from("index 1111111..2222222 100644")),
        Some(String::from("1111111..2222222"))
    );
    assert_eq!(commit_in_line(LogStyle::Unknown, &String::from("anything")), None);
}

#[test]
fn pager_file_and_line_extraction() {
    assert_eq!(
        file_in_line(LogStyle::Diff, &String::from("diff --git a/src/x.rs b/src/x.rs")),
        Some(String::from("src/x.rs"))
    );
    assert_eq!(file_in_line(LogStyle::OneLine, &String::from("diff --git a/x b/x")), None);
    assert_eq!(
        line_number_in_line(LogStyle::Diff, &String::from("@@ -1,4 +22,8 @@")),
        Some(22)
    );
    assert_eq!(line_number_in_line(LogStyle::Diff, &String::from("plain text")), None);
}

#[test]
fn pager_ansi_stripping() {
    assert_eq!(strip_ansi_codes("\u{1b}[31mred\u{1b}[0m"), "red");
    assert_eq!(strip_ansi_codes("plain"), "plain");
}

#[test]
fn status_parsing() {
    let mut files: Vec<(String, GitFile)> = Vec::new();
    parse_git_status(&mut files, " M foo\n?? bar\nA  baz").unwrap();
    assert_eq!(files.len(), 3);
    let foo = files.iter().find(|(n, _)| n == "foo").unwrap();
    assert_eq!(foo.1.unstaged_status, FileStatus::Modified);
    assert_eq!(foo.1.staged_status, FileStatus::Absent);
    let bar = files.iter().find(|(n, _)| n == "bar").unwrap();
    assert_eq!(bar.1.unstaged_status, FileStatus::New);
    let baz = files.iter().find(|(n, _)| n == "baz").unwrap();
    assert_eq!(baz.1.staged_status, FileStatus::New);
    assert_eq!(baz.1.unstaged_status, FileStatus::Absent);
    // a line too short for the status columns is a parse error
    let mut bad: Vec<(String, GitFile)> = Vec::new();
    assert_eq!(parse_git_status(&mut bad, "x"), Err(Error::GitParsing));
}

#[test]
fn status_tables_sorted() {
    let mut files: Vec<(String, GitFile)> = Vec::new();
    parse_git_status(&mut files, " M zeta\n?? alpha\n M beta\nD  gone").unwrap();
    let mut unstaged: Vec<(FileStatus, String)> = Vec::new();
    let mut staged: Vec<(FileStatus, String)> = Vec::new();
    compute_tables(&files, &mut unstaged, &mut staged);
    // ranked by status first (new before modified), then by name
    assert_eq!(
        unstaged,
        vec![
            (FileStatus::New, String::from("alpha")),
            (FileStatus::Modified, String::from("beta")),
            (FileStatus::Modified, String::from("zeta")),
        ]
    );
    assert_eq!(staged, vec![(FileStatus::Deleted, String::from("gone"))]);
}

#[test]
fn status_toggle() {
    // staging an unmerged file turns it into a staged modification
    let mut unmerged = GitFile::new(FileStatus::Unmerged, FileStatus::Absent);
    toggle_stage_git_file(&mut unmerged, StagedStatus::Unstaged);
    assert_eq!(unmerged.unstaged_status, FileStatus::Absent);
    assert_eq!(unmerged.staged_status, FileStatus::Modified);
    // a plain unstaged file moves its status across
    let mut modified = GitFile::new(FileStatus::Modified, FileStatus::Absent);
    toggle_stage_git_file(&mut modified, StagedStatus::Unstaged);
    assert_eq!(modified.unstaged_status, FileStatus::Absent);
    assert_eq!(modified.staged_status, FileStatus::Modified);
    // and back again
    toggle_stage_git_file(&mut modified, StagedStatus::Staged);
    assert_eq!(modified.unstaged_status, FileStatus::Modified);
    assert_eq!(modified.staged_status, FileStatus::Absent);
}

#[test]
fn status_switch_focus() {
    let mut side = StagedStatus::Unstaged;
    let mut cursor = ListCursor::starting();
    cursor.select(Some(7));
    switch_staged_status(&mut side, &mut cursor);
    assert_eq!(side, StagedStatus::Staged);
    assert_eq!(cursor.selected, Some(0));
}

#[test]
fn git_file_operations() {
    // staged since the last synchronization: an add is owed
    let mut file = GitFile::new(FileStatus::Modified, FileStatus::Absent);
    toggle_stage_git_file(&mut file, StagedStatus::Unstaged);
    assert_eq!(file.git_op(), Some(GitOp::Add));
    file.reinit();
    assert_eq!(file.git_op(), None);
    // unstaged again afterwards: a restore is owed
    toggle_stage_git_file(&mut file, StagedStatus::Staged);
    assert_eq!(file.git_op(), Some(GitOp::Restore));
}

#[test]
fn status_characters() {
    assert_eq!(FileStatus::Modified.character(), '>');
    assert_eq!(FileStatus::New.character(), '+');
    assert_eq!(FileStatus::Deleted.character(), '-');
    assert_eq!(FileStatus::Unmerged.character(), '@');
}

#[test]
fn repo_root_adaptation() {
    assert_eq!(adapt_repo_root(String::from("C:/repo")), "/mnt/c/repo");
    assert_eq!(adapt_repo_root(String::from("/home/repo")), "/home/repo");
}

#[test]
fn error_messages() {
    assert_eq!(
        Error::ParseAction(String::from("x")).text(),
        "unknown action `x`"
    );
    assert_eq!(Error::ReachedLastMachted.text(), "reached last match");
    assert_eq!(Error::StateIndex.text(), "invalid state index");
    assert_eq!(Error::GitParsing.text(), "could not properly parse git output");
}

#[test]
fn commit_parsing() {
    let output = "commit abc123 (HEAD)\nAuthor: Someone\nDate: today\n\n    message line\n\nM\tsrc/a.rs\nA\tdocs/b.md";
    let commit = gitrs::git::git_parse_commit(output).unwrap();
    assert_eq!(commit.hash, "abc123");
    assert_eq!(
        commit.metadata,
        "commit abc123 (HEAD)\nAuthor: Someone\nDate: today\n\n    message line\n"
    );
    assert_eq!(
        commit.files,
        vec![
            (FileStatus::Modified, String::from("src/a.rs")),
            (FileStatus::New, String::from("docs/b.md")),
        ]
    );
    // trailing statistics end the file list without joining it
    let output = "commit abc123 x\n\nD\tgone.rs\n 1 file changed";
    let commit = gitrs::git::git_parse_commit(output).unwrap();
    assert_eq!(commit.files, vec![(FileStatus::Deleted, String::from("gone.rs"))]);
    // no first line, no second token, and a tab-less file line all fail
    assert_eq!(gitrs::git::git_parse_commit(""), Err(Error::GitParsing));
    assert_eq!(gitrs::git::git_parse_commit("commit"), Err(Error::GitParsing));
    assert_eq!(gitrs::git::git_parse_commit("commit abc\n\nMnotab"), Err(Error::GitParsing));
}

#[test]
fn stash_parsing() {
    let output = "2024-01-02 10:00:00\tWIP on main: abc\n2024-02-03 11:00:00\tanother stash";
    let entries = gitrs::git::parse_stash_list(output).unwrap();
    assert_eq!(entries.len(), 2);
    assert_eq!(entries[0].date, "2024-01-02");
    assert_eq!(entries[0].title, "WIP on main: abc");
    assert_eq!(entries[1].date, "2024-02-03");
    assert_eq!(entries[1].title, "another stash");
    assert!(gitrs::git::parse_stash_list("no tab here").is_err());
}

#[test]
fn rename_detection() {
    let diff = "M\tkept.rs\nR100\told.rs\tnew.rs\nA\tadded.rs";
    assert_eq!(gitrs::git::previous_filename_from_diff(diff, "new.rs"), "old.rs");
    assert_eq!(gitrs::git::previous_filename_from_diff(diff, "kept.rs"), "kept.rs");
}

#[test]
fn blame_revision_marker() {
    assert_eq!(gitrs::git::blame_rev(&String::from("^abc123")), "abc123");
    assert_eq!(gitrs::git::blame_rev(&String::from("abc123")), "abc123");
}

#[test]
fn pager_context_scan() {
    let content = lines(&[
        "diff --git a/x.rs b/x.rs",
        "index 1111..2222 100644",
        "@@ -1,3 +10,4 @@",
        " context",
        "+added",
    ]);
    let (file, rev, line) =
        gitrs::pager::scan_file_rev_line(LogStyle::Diff, false, &content, 4, None);
    assert_eq!(file, Some(String::from("x.rs")));
    assert_eq!(rev, Some(String::from("1111..2222")));
    assert_eq!(line, Some(10));

    let log = lines(&["commit abc fix", "Author: someone", "patch text"]);
    let (file, rev, line) =
        gitrs::pager::scan_file_rev_line(LogStyle::Standard, false, &log, 2, None);
    assert_eq!(file, None);
    assert_eq!(rev, Some(String::from("abc")));
    assert_eq!(line, None);

    // a file the caller already read off the selected line is kept
    let (file, _, _) = gitrs::pager::scan_file_rev_line(
        LogStyle::Standard,
        false,
        &log,
        2,
        Some(String::from("preset.rs")),
    );
    assert_eq!(file, Some(String::from("preset.rs")));
}

#[test]
fn pager_stat_line() {
    assert_eq!(
        gitrs::pager::parse_stat_line(&String::from(" src/main.rs | 10 ++--")),
        Some(String::from("src/main.rs"))
    );
    assert_eq!(gitrs::pager::parse_stat_line(&String::from("no pipes here")), None);
    assert_eq!(gitrs::pager::parse_stat_line(&String::from("a | b")), None);
}

#[test]
fn pager_commit_navigation() {
    let content = lines(&[
        "commit aaa first",
        "body",
        "commit bbb second",
        "body",
    ]);
    assert_eq!(
        gitrs::pager::find_commit_line(LogStyle::Standard, false, &content, 0, true),
        Some(2)
    );
    assert_eq!(
        gitrs::pager::find_commit_line(LogStyle::Standard, false, &content, 3, false),
        Some(2)
    );
    assert_eq!(
        gitrs::pager::find_commit_line(LogStyle::Standard, false, &content, 2, true),
        None
    );
    assert_eq!(
        gitrs::pager::find_commit_line(LogStyle::Standard, false, &content, 0, false),
        None
    );
}

#[test]
fn status_stage_single_file() {
    let mut files: Vec<(String, GitFile)> = Vec::new();
    parse_git_status(&mut files, " M foo\n?? bar").unwrap();
    let mut unstaged: Vec<(FileStatus, String)> = Vec::new();
    let mut staged: Vec<(FileStatus, String)> = Vec::new();
    gitrs::status::stage_unstage_file(
        &mut files,
        &String::from("foo"),
        StagedStatus::Unstaged,
        &mut unstaged,
        &mut staged,
    )
    .unwrap();
    // the staged half gained the file, the unstaged half kept only the other
    assert_eq!(staged, vec![(FileStatus::Modified, String::from("foo"))]);
    assert_eq!(unstaged, vec![(FileStatus::New, String::from("bar"))]);
    // an unknown name is reported and nothing changes
    let r = gitrs::status::stage_unstage_file(
        &mut files,
        &String::from("ghost"),
        StagedStatus::Unstaged,
        &mut unstaged,
        &mut staged,
    );
    assert_eq!(r, Err(Error::UnknownFilename(String::from("ghost"))));
}

#[test]
fn status_switch_on_empty() {
    let mut side = StagedStatus::Unstaged;
    let mut cursor = ListCursor::starting();
    cursor.select(Some(4));
    let empty: Vec<(FileStatus, String)> = Vec::new();
    let staged = vec![(FileStatus::Modified, String::from("x"))];
    // the focused half is empty while the other has entries: focus moves
    assert!(gitrs::status::switch_if_empty(&mut side, &mut cursor, &empty, &staged));
    assert_eq!(side, StagedStatus::Staged);
    assert_eq!(cursor.selected, Some(0));
    // the focused half has entries: nothing changes
    assert!(!gitrs::status::switch_if_empty(&mut side, &mut cursor, &empty, &staged));
    assert_eq!(side, StagedStatus::Staged);
}
