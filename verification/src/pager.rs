//! The pager's line intelligence: recognizing the style of the streamed
//! output, stripping graph decorations, and reading a file, a line number
//! or a commit hash out of a line.

use vstd::prelude::*;
use vstd::string::StringExecFns;

use crate::config::MappingScope;
use crate::text::{
    char_digit, char_is_whitespace, chars_to_string, contains_seq, contains_str, find_first,
    find_sub, first_idx, is_dec_digit, is_whitespace_char, lemma_first_idx, lemma_next_ws_bounds,
    next_non_ws, occurs_at, parse_usize, parse_usize_spec, scan_to_non_ws, str_to_chars,
    starts_with_at, subvec, trim_spec,
};
use crate::action::{key_of, params_of};

verus! {

/// The recognized style of the content streaming through the pager.
#[derive(Debug, Clone, Copy, PartialEq, Eq, Structural)]
pub enum LogStyle {
    Standard,
    OneLine,
    Diff,
    Reflog,
    StashPager,
    Unknown,
}

impl LogStyle {
    /// The label shown in the pager's status line.
    pub fn text(&self) -> (r: &'static str)
        ensures
            r@ == match *self {
                LogStyle::Standard => "log"@,
                LogStyle::OneLine => "log (oneline)"@,
                LogStyle::Reflog => "log (reflog)"@,
                LogStyle::StashPager => "log (stash)"@,
                LogStyle::Diff => "diff"@,
                LogStyle::Unknown => "pager"@,
            },
    {
        match self {
            LogStyle::Standard => "log",
            LogStyle::OneLine => "log (oneline)",
            LogStyle::Reflog => "log (reflog)",
            LogStyle::StashPager => "log (stash)",
            LogStyle::Diff => "diff",
            LogStyle::Unknown => "pager",
        }
    }

    /// The binding scope the pager consults for this style.
    pub fn mapping_scope(&self) -> (r: MappingScope)
        ensures
            r == match *self {
                LogStyle::Diff => MappingScope::Diff,
                LogStyle::Unknown => MappingScope::Pager,
                _ => MappingScope::Log,
            },
    {
        match self {
            LogStyle::Diff => MappingScope::Diff,
            LogStyle::Unknown => MappingScope::Pager,
            _ => MappingScope::Log,
        }
    }
}

/// What the pager-relevant command each view opens maps to.
#[derive(Debug, Clone, PartialEq)]
pub enum PagerCommand {
    Log(Vec<String>),
    Show(Vec<String>),
    Diff(Vec<String>),
}

/// A line with its leading graph decoration removed: as long as the first
/// character is a branch-drawing `*`, `|` or a space, two characters leave.
pub open spec fn strip_graph(s: Seq<char>) -> Seq<char>
    decreases s.len(),
{
    if s.len() > 0 && (s[0] == '*' || s[0] == '|' || s[0] == ' ') {
        if s.len() >= 2 {
            strip_graph(s.skip(2))
        } else {
            Seq::empty()
        }
    } else {
        s
    }
}

/// Remove the leading graph decoration of a line.
pub fn remove_graph_symbols(line: &mut String)
    ensures
        final(line)@ == strip_graph(old(line)@),
{
    let v = str_to_chars(line.as_str());
    let mut pos: usize = 0;
    assert(v@.skip(0) =~= v@);
    while pos < v.len() && (v[pos] == '*' || v[pos] == '|' || v[pos] == ' ')
        invariant
            pos <= v@.len(),
            strip_graph(v@) == strip_graph(v@.skip(pos as int)),
        decreases v.len() - pos,
    {
        let ghost rest = v@.skip(pos as int);
        if v.len() - pos >= 2 {
            assert(rest.skip(2) =~= v@.skip(pos + 2));
            pos = pos + 2;
        } else {
            assert(rest.len() == 1);
            assert(strip_graph(rest) =~= Seq::<char>::empty());
            pos = v.len();
            assert(v@.skip(pos as int) =~= Seq::<char>::empty());
            assert(strip_graph(v@.skip(pos as int)) =~= Seq::<char>::empty());
        }
    }
    let tail = subvec(&v, pos, v.len());
    assert(tail@ =~= v@.skip(pos as int));
    *line = chars_to_string(&tail);
}

/// What the first streamed line says about the content's style, before any
/// revision check: a `commit` or `diff` first word decides at once, a
/// reflog or stash or numbered-line marker decides, and a line of two or
/// more words headed by a plausible revision asks for a revision check.
pub enum StyleGuess {
    Known(LogStyle),
    CheckRev(String),
}

/// The style the first line determines without consulting the repository;
/// `None` when the decision needs to know whether the first word is a
/// valid revision.
pub open spec fn guess_spec(s: Seq<char>) -> Option<LogStyle> {
    let w1 = key_of(s);
    if w1 == "commit"@ {
        Some(LogStyle::Standard)
    } else if w1 == "diff"@ {
        Some(LogStyle::Diff)
    } else if contains_seq(s, "HEAD@{0}:"@) {
        Some(LogStyle::Reflog)
    } else if occurs_at(s, "stash@{0}:"@, 0) {
        Some(LogStyle::StashPager)
    } else if contains_seq(s, " 1) "@) {
        Some(LogStyle::Unknown)
    } else if first_idx(s, ' ') < s.len() {
        None
    } else {
        Some(LogStyle::Unknown)
    }
}

/// Guess the content style from the first line. A `CheckRev` result asks
/// the caller whether the named word is a valid revision; the style is then
/// [`resolve_rev_guess`] of the answer.
pub fn guess_log_style(line: &String) -> (r: StyleGuess)
    ensures
        match r {
            StyleGuess::Known(style) => guess_spec(line@) == Some(style),
            StyleGuess::CheckRev(rev) => guess_spec(line@) is None && rev@ == key_of(line@),
        },
{
    let v = str_to_chars(line.as_str());
    proof {
        lemma_first_idx(v@, ' ');
    }
    let sp = find_first(&v, ' ');
    let w1 = subvec(&v, 0, sp);
    if crate::text::chars_eq_str(&w1, "commit") {
        StyleGuess::Known(LogStyle::Standard)
    } else if crate::text::chars_eq_str(&w1, "diff") {
        StyleGuess::Known(LogStyle::Diff)
    } else if contains_str(&v, "HEAD@{0}:") {
        StyleGuess::Known(LogStyle::Reflog)
    } else if starts_with_at(&v, "stash@{0}:", 0) {
        StyleGuess::Known(LogStyle::StashPager)
    } else if contains_str(&v, " 1) ") {
        StyleGuess::Known(LogStyle::Unknown)
    } else if sp < v.len() {
        StyleGuess::CheckRev(chars_to_string(&w1))
    } else {
        StyleGuess::Known(LogStyle::Unknown)
    }
}

/// The style a revision check decides: a line headed by a valid revision
/// is a one-line log; anything else stays unrecognized.
pub fn resolve_rev_guess(rev_is_valid: bool) -> (r: LogStyle)
    ensures
        r == if rev_is_valid {
            LogStyle::OneLine
        } else {
            LogStyle::Unknown
        },
{
    if rev_is_valid {
        LogStyle::OneLine
    } else {
        LogStyle::Unknown
    }
}

/// Whether the first line of the stream announces a branch graph: its
/// first space-separated word is a lone `*`.
pub fn detect_graph(first_line: &String) -> (r: bool)
    ensures
        r == (key_of(first_line@) == "*"@),
{
    let v = str_to_chars(first_line.as_str());
    proof {
        lemma_first_idx(v@, ' ');
    }
    let sp = find_first(&v, ' ');
    let w1 = subvec(&v, 0, sp);
    crate::text::chars_eq_str(&w1, "*")
}

/// The file a diff header names: after `diff --git a/`, the path following
/// the first ` b/`.
#[verifier::opaque]
pub open spec fn file_in_line_spec(style: LogStyle, s: Seq<char>) -> Option<Seq<char>> {
    if style == LogStyle::OneLine {
        None
    } else if starts_with_graphless(s, "diff --git a/"@) && contains_seq(s, " b/"@) {
        Some(s.skip(first_occurrence(s, " b/"@) + 3))
    } else {
        None
    }
}

/// `s` starts with `p` (helper naming the prefix test on an already
/// graph-stripped line).
pub open spec fn starts_with_graphless(s: Seq<char>, p: Seq<char>) -> bool {
    occurs_at(s, p, 0)
}

/// The first position where `p` occurs in `s`.
pub open spec fn first_occurrence(s: Seq<char>, p: Seq<char>) -> int {
    choose|i: int| occurs_at(s, p, i) && forall|j: int| 0 <= j < i ==> !occurs_at(s, p, j)
}

/// The file named by an already graph-stripped line, if it is the head of
/// a file's diff.
pub fn file_in_line(style: LogStyle, line: &String) -> (r: Option<String>)
    ensures
        match r {
            Some(f) => file_in_line_spec(style, line@) == Some(f@),
            None => file_in_line_spec(style, line@) is None,
        },
{
    proof {
        reveal(file_in_line_spec);
    }
    if matches!(style, LogStyle::OneLine) {
        return None;
    }
    let v = str_to_chars(line.as_str());
    if !starts_with_at(&v, "diff --git a/", 0) {
        return None;
    }
    match find_sub(&v, " b/") {
        Some(i) => {
            proof {
                reveal_strlit(" b/");
                assert(occurs_at(v@, " b/"@, i as int));
                let w = first_occurrence(v@, " b/"@);
                assert(occurs_at(v@, " b/"@, w) && forall|j: int|
                    0 <= j < w ==> !occurs_at(v@, " b/"@, j)) by {
                    assert(occurs_at(v@, " b/"@, i as int) && forall|j: int|
                        0 <= j < i ==> !occurs_at(v@, " b/"@, j));
                }
                assert(w == i) by {
                    if w < i {
                    } else if i < w {
                    }
                }
                assert(i + 3 <= v@.len());
            }
            let vl = v.len();
            let f = subvec(&v, i + 3, vl);
            assert(f@ =~= line@.skip(i + 3));
            Some(chars_to_string(&f))
        },
        None => None,
    }
}

/// The target line number an already graph-stripped hunk header names:
/// after `@@ -`, the digit run following the first ` +`.
#[verifier::opaque]
pub open spec fn line_number_spec(style: LogStyle, s: Seq<char>) -> Option<int> {
    if style == LogStyle::OneLine {
        None
    } else if starts_with_graphless(s, "@@ -"@) && contains_seq(s, " +"@) {
        let after = s.skip(first_occurrence(s, " +"@) + 2);
        let digits = after.take(digit_run(after));
        parse_usize_spec(digits)
    } else {
        None
    }
}

/// Length of the leading run of decimal digits.
pub open spec fn digit_run(s: Seq<char>) -> int
    decreases s.len(),
{
    if s.len() > 0 && is_dec_digit(s[0]) {
        1 + digit_run(s.drop_first())
    } else {
        0
    }
}

/// The target line number of a hunk header.
pub fn line_number_in_line(style: LogStyle, line: &String) -> (r: Option<usize>)
    ensures
        match r {
            Some(n) => line_number_spec(style, line@) == Some(n as int),
            None => line_number_spec(style, line@) is None,
        },
{
    proof {
        reveal(line_number_spec);
    }
    if matches!(style, LogStyle::OneLine) {
        return None;
    }
    let v = str_to_chars(line.as_str());
    if !starts_with_at(&v, "@@ -", 0) {
        return None;
    }
    match find_sub(&v, " +") {
        Some(i) => {
            proof {
                reveal_strlit(" +");
                let w = first_occurrence(v@, " +"@);
                assert(occurs_at(v@, " +"@, w) && forall|j: int|
                    0 <= j < w ==> !occurs_at(v@, " +"@, j)) by {
                    assert(occurs_at(v@, " +"@, i as int) && forall|j: int|
                        0 <= j < i ==> !occurs_at(v@, " +"@, j));
                }
                assert(w == i) by {
                    if w < i {
                    } else if i < w {
                    }
                }
                assert(i + 2 <= v@.len());
            }
            let vl = v.len();
            let after = subvec(&v, i + 2, vl);
            assert(after@ =~= line@.skip(i + 2));
            let mut d: usize = 0;
            assert(after@.skip(0) =~= after@);
            while d < after.len() && matches!(crate::text::char_digit(after[d]), Some(_))
                invariant
                    d <= after@.len(),
                    digit_run(after@) == d + digit_run(after@.skip(d as int)),
                    forall|j: int| 0 <= j < d ==> is_dec_digit(#[trigger] after@[j]),
                decreases after.len() - d,
            {
                let ghost rest = after@.skip(d as int);
                assert(rest[0] == after@[d as int] && is_dec_digit(rest[0]));
                assert(rest.drop_first() =~= after@.skip(d + 1));
                d += 1;
            }
            proof {
                if d < after@.len() {
                    assert(after@.skip(d as int)[0] == after@[d as int]);
                    assert(digit_run(after@.skip(d as int)) == 0);
                } else {
                    assert(after@.skip(d as int).len() == 0);
                }
            }
            let digits = subvec(&after, 0, d);
            assert(digits@ =~= after@.take(digit_run(after@)));
            parse_usize(&digits)
        },
        None => None,
    }
}

/// The commit a line names, per style: a `commit <hash>` header, the first
/// word of a one-line entry, a `stash@{n}` reference, a reflog entry's
/// head, or a diff `index` line's blob range.
#[verifier::opaque]
pub open spec fn commit_in_line_spec(style: LogStyle, s: Seq<char>) -> Option<Seq<char>> {
    match style {
        LogStyle::Standard => {
            if key_of(s) == "commit"@ && first_idx(s, ' ') < s.len() && key_of(params_of(s)).len()
                > 0 {
                Some(key_of(params_of(s)))
            } else {
                None
            }
        },
        LogStyle::OneLine => {
            if first_idx(s, ' ') < s.len() {
                Some(key_of(s))
            } else {
                None
            }
        },
        LogStyle::StashPager => {
            if occurs_at(s, "stash@{"@, 0) && first_idx(s, ':') < s.len() {
                Some(s.subrange(0, first_idx(s, ':')))
            } else {
                None
            }
        },
        LogStyle::Reflog => {
            if contains_seq(s, "HEAD@{"@) && first_idx(s, ' ') < s.len() {
                Some(key_of(s))
            } else {
                None
            }
        },
        LogStyle::Diff => {
            if key_of(s) == "index"@ && first_idx(s, ' ') < s.len() && key_of(params_of(s)).len()
                > 0 {
                Some(key_of(params_of(s)))
            } else {
                None
            }
        },
        LogStyle::Unknown => None,
    }
}

/// The commit an already graph-stripped line names, per style.
pub fn commit_in_line(style: LogStyle, line: &String) -> (r: Option<String>)
    ensures
        match r {
            Some(c) => commit_in_line_spec(style, line@) == Some(c@),
            None => commit_in_line_spec(style, line@) is None,
        },
{
    let v = str_to_chars(line.as_str());
    proof {
        reveal(commit_in_line_spec);
        lemma_first_idx(v@, ' ');
        lemma_first_idx(v@, ':');
    }
    match style {
        LogStyle::Standard | LogStyle::Diff => {
            let keyword: &str = if matches!(style, LogStyle::Standard) {
                "commit"
            } else {
                "index"
            };
            let sp = find_first(&v, ' ');
            let w1 = subvec(&v, 0, sp);
            if !crate::text::chars_eq_str(&w1, keyword) || sp == v.len() {
                return None;
            }
            let rest = subvec(&v, sp + 1, v.len());
            proof {
                lemma_first_idx(rest@, ' ');
                assert(rest@ =~= params_of(line@));
            }
            let sp2 = find_first(&rest, ' ');
            let w2 = subvec(&rest, 0, sp2);
            if w2.len() == 0 {
                return None;
            }
            Some(chars_to_string(&w2))
        },
        LogStyle::OneLine => {
            let sp = find_first(&v, ' ');
            if sp == v.len() {
                return None;
            }
            let w1 = subvec(&v, 0, sp);
            Some(chars_to_string(&w1))
        },
        LogStyle::StashPager => {
            if !starts_with_at(&v, "stash@{", 0) {
                return None;
            }
            let cp = find_first(&v, ':');
            if cp == v.len() {
                return None;
            }
            let w = subvec(&v, 0, cp);
            Some(chars_to_string(&w))
        },
        LogStyle::Reflog => {
            if !contains_str(&v, "HEAD@{") {
                return None;
            }
            let sp = find_first(&v, ' ');
            if sp == v.len() {
                return None;
            }
            let w1 = subvec(&v, 0, sp);
            Some(chars_to_string(&w1))
        },
        LogStyle::Unknown => None,
    }
}

/// The file a patch-statistics line names: text before the first `|`,
/// trimmed, when at least one white-space character precedes the `|` and a
/// white-space run, a digit run, a white-space run and a `+`/`-` run
/// follow it.
pub open spec fn stat_line_spec(s: Seq<char>) -> Option<Seq<char>> {
    let p = first_idx(s, '|');
    if p < s.len() && p >= 2 && char_is_whitespace(s[p - 1]) {
        let after = s.skip(p + 1);
        let w1 = next_non_ws(after, 0);
        let d = digit_run(after.skip(w1));
        let k = next_non_ws(after, w1 + d);
        if w1 >= 1 && d >= 1 && k > w1 + d && k < after.len() && (after[k] == '+' || after[k]
            == '-') {
            Some(trim_spec(s.subrange(0, p)))
        } else {
            None
        }
    } else {
        None
    }
}

/// Read the filename out of a patch-statistics line, if the line is one.
pub fn parse_stat_line(line: &String) -> (r: Option<String>)
    ensures
        match r {
            Some(f) => stat_line_spec(line@) == Some(f@),
            None => stat_line_spec(line@) is None,
        },
{
    let v = str_to_chars(line.as_str());
    proof {
        lemma_first_idx(v@, '|');
    }
    let p = find_first(&v, '|');
    if !(p < v.len() && p >= 2 && is_whitespace_char(v[p - 1])) {
        return None;
    }
    let after = subvec(&v, p + 1, v.len());
    assert(after@ =~= line@.skip(p + 1));
    proof {
        lemma_next_ws_bounds(after@, 0);
    }
    let w1 = scan_to_non_ws(&after, 0);
    let mut d: usize = 0;
    assert(after@.skip(w1 as int).skip(0) =~= after@.skip(w1 as int));
    while w1 + d < after.len() && matches!(char_digit(after[w1 + d]), Some(_))
        invariant
            w1 + d <= after@.len(),
            digit_run(after@.skip(w1 as int)) == d + digit_run(after@.skip(w1 + d)),
            forall|j: int| w1 <= j < w1 + d ==> is_dec_digit(#[trigger] after@[j]),
        decreases after.len() - w1 - d,
    {
        let ghost rest = after@.skip(w1 + d);
        assert(rest[0] == after@[w1 + d] && is_dec_digit(rest[0]));
        assert(rest.drop_first() =~= after@.skip(w1 + d + 1));
        d += 1;
    }
    proof {
        if w1 + d < after@.len() {
            assert(after@.skip(w1 + d)[0] == after@[w1 + d]);
            assert(digit_run(after@.skip(w1 + d)) == 0);
        } else {
            assert(after@.skip(w1 + d).len() == 0);
        }
    }
    proof {
        lemma_next_ws_bounds(after@, (w1 + d) as int);
    }
    let k = scan_to_non_ws(&after, w1 + d);
    if w1 >= 1 && d >= 1 && k > w1 + d && k < after.len() && (after[k] == '+' || after[k] == '-') {
        let region = subvec(&v, 0, p);
        assert(region@ =~= line@.subrange(0, p as int));
        let trimmed = crate::text::trim_chars(&region);
        Some(chars_to_string(&trimmed))
    } else {
        None
    }
}

/// What one line does to the context scan's state, and whether it ends
/// the scan: the first file a diff header names is kept (ending a diff
/// scan), the first hunk header's line number is kept, and a named commit
/// is kept (ending every scan but a diff's).
pub open spec fn scan_step(
    style: LogStyle,
    l: Seq<char>,
    st: (Option<Seq<char>>, Option<Seq<char>>, Option<int>),
) -> ((Option<Seq<char>>, Option<Seq<char>>, Option<int>), bool) {
    let found_file = st.0 is None && file_in_line_spec(style, l) is Some;
    let file2 = if found_file {
        file_in_line_spec(style, l)
    } else {
        st.0
    };
    if found_file && style == LogStyle::Diff {
        ((file2, st.1, st.2), true)
    } else {
        let ln2 = if st.2 is None {
            line_number_spec(style, l)
        } else {
            st.2
        };
        match commit_in_line_spec(style, l) {
            Some(c) => ((file2, Some(c), ln2), style != LogStyle::Diff),
            None => ((file2, st.1, ln2), false),
        }
    }
}

/// What the pager's context scan yields, walking from line `idx` towards
/// the first line, one [`scan_step`] per line.
pub open spec fn scan_spec(
    style: LogStyle,
    graph: bool,
    lines: Seq<Seq<char>>,
    idx: int,
    st: (Option<Seq<char>>, Option<Seq<char>>, Option<int>),
) -> (Option<Seq<char>>, Option<Seq<char>>, Option<int>)
    decreases idx + 1,
{
    if idx < 0 || idx >= lines.len() {
        st
    } else {
        let l = if graph {
            strip_graph(lines[idx])
        } else {
            lines[idx]
        };
        let (st2, stop) = scan_step(style, l, st);
        if stop || idx == 0 {
            st2
        } else {
            scan_spec(style, graph, lines, idx - 1, st2)
        }
    }
}

/// Walk from the selected line upward collecting the command context: the
/// file, revision and line number the nearest headers name. `preset_file`
/// carries a file the caller already read off the selected line itself.
#[verifier::rlimit(100)]
#[verifier::spinoff_prover]
pub fn scan_file_rev_line(
    style: LogStyle,
    graph: bool,
    lines: &Vec<String>,
    start: usize,
    preset_file: Option<String>,
) -> (r: (Option<String>, Option<String>, Option<usize>))
    requires
        start < lines@.len(),
    ensures
        ({
            let lv = lines@.map_values(|s: String| s@);
            let pf = match preset_file {
                Some(f) => Some(f@),
                None => None,
            };
            let out = scan_spec(style, graph, lv, start as int, (pf, None, None));
            &&& (match r.0 {
                Some(f) => out.0 == Some(f@),
                None => out.0 is None,
            })
            &&& (match r.1 {
                Some(c) => out.1 == Some(c@),
                None => out.1 is None,
            })
            &&& (match r.2 {
                Some(n) => out.2 == Some(n as int),
                None => out.2 is None,
            })
        }),
{
    let ghost lv = lines@.map_values(|s: String| s@);
    let mut file = match &preset_file {
        Some(f) => Some(f.clone()),
        None => None,
    };
    let mut commit: Option<String> = None;
    let mut line_no: Option<usize> = None;
    let mut idx = start;
    let ghost pf = match preset_file {
        Some(ref f) => Some(f@),
        None => None::<Seq<char>>,
    };
    let ghost mut st: (Option<Seq<char>>, Option<Seq<char>>, Option<int>) = (pf, None, None);
    loop
        invariant
            idx <= start < lv.len(),
            lv == lines@.map_values(|s: String| s@),
            pf == (match preset_file {
                Some(ref f) => Some(f@),
                None => None::<Seq<char>>,
            }),
            st.0 == (match file {
                Some(ref f) => Some(f@),
                None => None::<Seq<char>>,
            }),
            st.1 == (match commit {
                Some(ref c) => Some(c@),
                None => None::<Seq<char>>,
            }),
            st.2 == (match line_no {
                Some(n) => Some(n as int),
                None => None::<int>,
            }),
            scan_spec(style, graph, lv, start as int, (pf, None, None)) == scan_spec(
                style,
                graph,
                lv,
                idx as int,
                st,
            ),
        decreases idx,
    {
        assert(lv[idx as int] == lines@[idx as int]@);
        let mut line = lines[idx].clone();
        if graph {
            remove_graph_symbols(&mut line);
        }
        let ghost l = if graph {
            strip_graph(lv[idx as int])
        } else {
            lv[idx as int]
        };
        assert(line@ == l);
        let ghost st0 = st;
        let mut stop = false;
        if file.is_none() {
            if let Some(f) = file_in_line(style, &line) {
                file = Some(f);
                if matches!(style, LogStyle::Diff) {
                    stop = true;
                }
            }
        }
        if !stop {
            if line_no.is_none() {
                line_no = line_number_in_line(style, &line);
            }
            if let Some(c) = commit_in_line(style, &line) {
                commit = Some(c);
                if !matches!(style, LogStyle::Diff) {
                    stop = true;
                }
            }
        }
        proof {
            st = (
                match file {
                    Some(ref f) => Some(f@),
                    None => None::<Seq<char>>,
                },
                match commit {
                    Some(ref c) => Some(c@),
                    None => None::<Seq<char>>,
                },
                match line_no {
                    Some(n) => Some(n as int),
                    None => None::<int>,
                },
            );
            assert(scan_step(style, l, st0) == (st, stop));
        }
        if stop || idx == 0 {
            assert(scan_spec(style, graph, lv, idx as int, st0) == st);
            return (file, commit, line_no);
        }
        idx -= 1;
    }
}

/// Whether a line names a commit, once its graph decoration is off.
pub open spec fn names_commit(style: LogStyle, graph: bool, lines: Seq<Seq<char>>, j: int) -> bool {
    commit_in_line_spec(
        style,
        if graph {
            strip_graph(lines[j])
        } else {
            lines[j]
        },
    ) is Some
}

/// The nearest line naming a commit: scanning away from the current line,
/// upward or downward, to the first line a commit can be read from.
pub fn find_commit_line(
    style: LogStyle,
    graph: bool,
    lines: &Vec<String>,
    current: usize,
    forward: bool,
) -> (r: Option<usize>)
    requires
        current < usize::MAX,
    ensures
        ({
            let lv = lines@.map_values(|s: String| s@);
            match r {
                Some(i) => if forward {
                    current < i < lv.len() && names_commit(style, graph, lv, i as int) && forall|
                        j: int,
                    | current < j < i ==> !names_commit(style, graph, lv, j)
                } else {
                    i < current && i < lv.len() && names_commit(style, graph, lv, i as int)
                        && forall|j: int|
                        i < j < current && j < lv.len() ==> !names_commit(style, graph, lv, j)
                },
                None => if forward {
                    forall|j: int| current < j < lv.len() ==> !names_commit(style, graph, lv, j)
                } else {
                    forall|j: int|
                        0 <= j < current && j < lv.len() ==> !names_commit(style, graph, lv, j)
                },
            }
        }),
{
    let ghost lv = lines@.map_values(|s: String| s@);
    if forward {
        let mut idx = current + 1;
        while idx < lines.len()
            invariant
                forward,
                current < idx,
                idx <= lv.len() || idx == current + 1,
                lv == lines@.map_values(|s: String| s@),
                forall|j: int| current < j < idx ==> !names_commit(style, graph, lv, j),
            decreases lv.len() - idx,
        {
            assert(lv[idx as int] == lines@[idx as int]@);
            let mut line = lines[idx].clone();
            if graph {
                remove_graph_symbols(&mut line);
            }
            if commit_in_line(style, &line).is_some() {
                return Some(idx);
            }
            idx += 1;
        }
        None
    } else {
        let mut idx = current;
        while idx > 0
            invariant
                !forward,
                idx <= current,
                lv == lines@.map_values(|s: String| s@),
                forall|j: int| idx <= j < current && j < lv.len() ==> !names_commit(style, graph, lv, j),
            decreases idx,
        {
            idx -= 1;
            if idx < lines.len() {
                assert(lv[idx as int] == lines@[idx as int]@);
                let mut line = lines[idx].clone();
                if graph {
                    remove_graph_symbols(&mut line);
                }
                if commit_in_line(style, &line).is_some() {
                    return Some(idx);
                }
            }
        }
        None
    }
}

/// What a line reads once its ANSI escape sequences are removed. The name
/// stands for what `strip_ansi_escapes::strip_str` returns; the result
/// depends on the characters of the line alone.
pub uninterp spec fn ansi_stripped(s: Seq<char>) -> Seq<char>;

/// Relies on `strip_ansi_escapes::strip_str`: the line with its ANSI
/// escape sequences removed.
#[verifier::external_body]
pub fn strip_ansi_codes(s: &str) -> (r: String)
    ensures
        r@ == ansi_stripped(s@),
{
    strip_ansi_escapes::strip_str(s)
}

} // verus!
