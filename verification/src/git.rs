//! Model of the working tree the status view manipulates: per-file staged
//! and unstaged statuses, the operation a status change asks of the
//! version-control tool, and the records the other views list.

use vstd::prelude::*;
use vstd::string::StringExecFns;

use crate::errors::{Error, ErrorV};
use crate::text::{
    char_is_whitespace, chars_eq_str, chars_to_string, find_first, first_idx, is_whitespace_char,
    lemma_first_idx, lemma_next_ws_bounds, line_views, lines_of, next_non_ws, next_ws,
    scan_to_non_ws, scan_to_ws, split_lines, starts_with, starts_with_at, str_to_chars, subvec,
};

verus! {

/// Status of a file on one side (staged or unstaged) of the index.
/// `Absent` means the file does not appear on that side.
#[derive(Debug, Clone, Copy, PartialEq, Eq, Structural, Hash)]
pub enum FileStatus {
    Absent,
    Unmerged,
    New,
    Modified,
    Deleted,
}

impl FileStatus {
    /// The one-character marker shown in front of a filename.
    pub fn character(&self) -> (c: char)
        requires
            *self != FileStatus::Absent,
        ensures
            c == match *self {
                FileStatus::Modified => '>',
                FileStatus::Deleted => '-',
                FileStatus::New => '+',
                _ => '@',
            },
    {
        match self {
            FileStatus::Modified => '>',
            FileStatus::Deleted => '-',
            FileStatus::New => '+',
            _ => '@',
        }
    }

    /// Sort rank of a status: declaration order, `Absent` first.
    pub open spec fn rank_spec(self) -> int {
        match self {
            FileStatus::Absent => 0,
            FileStatus::Unmerged => 1,
            FileStatus::New => 2,
            FileStatus::Modified => 3,
            FileStatus::Deleted => 4,
        }
    }

    /// Sort rank of a status, for ordering status tables.
    pub fn rank(&self) -> (r: usize)
        ensures
            r == self.rank_spec(),
    {
        match self {
            FileStatus::Absent => 0,
            FileStatus::Unmerged => 1,
            FileStatus::New => 2,
            FileStatus::Modified => 3,
            FileStatus::Deleted => 4,
        }
    }

    /// Parse a status name of the configuration grammar.
    pub fn from_str(s: &str) -> (r: Result<FileStatus, Error>)
        ensures
            match r {
                Ok(f) => parse_file_status_spec(s@) == Some(f),
                Err(e) => parse_file_status_spec(s@) is None && e@ == ErrorV::ParseMappingScope(
                    s@,
                ),
            },
    {
        let v = str_to_chars(s);
        if chars_eq_str(&v, "modified") {
            Ok(FileStatus::Modified)
        } else if chars_eq_str(&v, "new") {
            Ok(FileStatus::New)
        } else if chars_eq_str(&v, "deleted") {
            Ok(FileStatus::Deleted)
        } else if chars_eq_str(&v, "conflicted") {
            Ok(FileStatus::Unmerged)
        } else {
            Err(Error::ParseMappingScope(String::from_str(s)))
        }
    }
}

/// The status name grammar: which names denote which statuses.
pub open spec fn parse_file_status_spec(s: Seq<char>) -> Option<FileStatus> {
    if s == "modified"@ {
        Some(FileStatus::Modified)
    } else if s == "new"@ {
        Some(FileStatus::New)
    } else if s == "deleted"@ {
        Some(FileStatus::Deleted)
    } else if s == "conflicted"@ {
        Some(FileStatus::Unmerged)
    } else {
        None
    }
}

/// Which half of the status view a file or the focus belongs to.
#[derive(Debug, Clone, Copy, PartialEq, Eq, Structural, Hash)]
pub enum StagedStatus {
    Unstaged,
    Staged,
}

/// The staged-status name grammar.
pub open spec fn parse_staged_status_spec(s: Seq<char>) -> Option<StagedStatus> {
    if s == "unstaged"@ {
        Some(StagedStatus::Unstaged)
    } else if s == "staged"@ {
        Some(StagedStatus::Staged)
    } else {
        None
    }
}

impl StagedStatus {
    /// Parse a staged-status name of the configuration grammar.
    pub fn from_str(s: &str) -> (r: Result<StagedStatus, Error>)
        ensures
            match r {
                Ok(f) => parse_staged_status_spec(s@) == Some(f),
                Err(e) => parse_staged_status_spec(s@) is None && e@ == ErrorV::ParseMappingScope(
                    s@,
                ),
            },
    {
        let v = str_to_chars(s);
        if chars_eq_str(&v, "unstaged") {
            Ok(StagedStatus::Unstaged)
        } else if chars_eq_str(&v, "staged") {
            Ok(StagedStatus::Staged)
        } else {
            Err(Error::ParseMappingScope(String::from_str(s)))
        }
    }
}

/// The operation a file's status change asks of the version-control tool.
#[derive(Debug, Clone, Copy, PartialEq, Eq, Structural)]
pub enum GitOp {
    Add,
    Restore,
    RmCached,
}

/// A commit as shown in the blame margin.
#[derive(Debug, Clone, PartialEq)]
pub struct CommitInBlame {
    pub hash: String,
    pub author: String,
    pub date: String,
}

/// One stash entry: its date and its title line.
#[derive(Debug, Clone, PartialEq)]
pub struct Stash {
    pub date: String,
    pub title: String,
}

/// The staged and unstaged status of one file, together with the statuses
/// it had when the working tree was last synchronized.
#[derive(Debug, Clone, Copy, PartialEq, Eq, Structural)]
pub struct GitFile {
    pub unstaged_status: FileStatus,
    pub staged_status: FileStatus,
    pub init_unstaged_status: FileStatus,
    pub init_staged_status: FileStatus,
}

impl GitFile {
    /// A file whose current and synchronized statuses coincide.
    pub fn new(unstaged_status: FileStatus, staged_status: FileStatus) -> (r: GitFile)
        ensures
            r.unstaged_status == unstaged_status,
            r.staged_status == staged_status,
            r.init_unstaged_status == unstaged_status,
            r.init_staged_status == staged_status,
    {
        GitFile {
            unstaged_status,
            staged_status,
            init_unstaged_status: unstaged_status,
            init_staged_status: staged_status,
        }
    }

    /// Set the current statuses; the synchronized statuses stay.
    pub fn set_status(&mut self, new_unstaged_status: FileStatus, new_staged_status: FileStatus)
        ensures
            final(self).unstaged_status == new_unstaged_status,
            final(self).staged_status == new_staged_status,
            final(self).init_unstaged_status == old(self).init_unstaged_status,
            final(self).init_staged_status == old(self).init_staged_status,
    {
        self.unstaged_status = new_unstaged_status;
        self.staged_status = new_staged_status;
    }

    /// The operation that brings the repository from the synchronized
    /// statuses to the current ones, if one is owed.
    pub open spec fn git_op_spec(self) -> Option<GitOp> {
        if self.init_unstaged_status != FileStatus::Absent && self.unstaged_status == FileStatus::Absent
            && self.staged_status != FileStatus::Absent {
            Some(GitOp::Add)
        } else if self.init_staged_status != FileStatus::Absent && self.staged_status
            == FileStatus::Absent {
            match self.unstaged_status {
                FileStatus::New => Some(GitOp::RmCached),
                FileStatus::Absent => None,
                _ => Some(GitOp::Restore),
            }
        } else {
            None
        }
    }

    /// The operation that brings the repository up to date for this file.
    pub fn git_op(&self) -> (r: Option<GitOp>)
        ensures
            r == self.git_op_spec(),
    {
        if self.init_unstaged_status != FileStatus::Absent && self.unstaged_status
            == FileStatus::Absent && self.staged_status != FileStatus::Absent {
            Some(GitOp::Add)
        } else if self.init_staged_status != FileStatus::Absent && self.staged_status
            == FileStatus::Absent {
            match self.unstaged_status {
                FileStatus::New => Some(GitOp::RmCached),
                FileStatus::Absent => None,
                _ => Some(GitOp::Restore),
            }
        } else {
            None
        }
    }

    /// Mark the current statuses as synchronized.
    pub fn reinit(&mut self)
        ensures
            final(self).unstaged_status == old(self).unstaged_status,
            final(self).staged_status == old(self).staged_status,
            final(self).init_unstaged_status == old(self).unstaged_status,
            final(self).init_staged_status == old(self).staged_status,
    {
        self.init_staged_status = self.staged_status;
        self.init_unstaged_status = self.unstaged_status;
    }
}

/// A commit: its metadata block, the files it touches, and its hash.
#[derive(Debug, Clone, PartialEq)]
pub struct Commit {
    pub metadata: String,
    pub files: Vec<(FileStatus, String)>,
    pub hash: String,
}

impl Commit {
    pub fn new(metadata: String, files: Vec<(FileStatus, String)>, hash: String) -> (r: Commit)
        ensures
            r.metadata == metadata,
            r.files == files,
            r.hash == hash,
    {
        Commit { metadata, files, hash }
    }
}

/// The second white-space-separated token of a line, if it has two.
pub open spec fn second_token(s: Seq<char>) -> Option<Seq<char>> {
    let t1s = next_non_ws(s, 0);
    if t1s == s.len() {
        None
    } else {
        let t1e = next_ws(s, t1s);
        let t2s = next_non_ws(s, t1e);
        if t2s == s.len() {
            None
        } else {
            Some(s.subrange(t2s, next_ws(s, t2s)))
        }
    }
}

/// The text between the first and second tab of a line; up to the end when
/// there is no second tab; `None` without a first tab.
pub open spec fn tab_second(s: Seq<char>) -> Option<Seq<char>> {
    let i = first_idx(s, '\t');
    if i == s.len() {
        None
    } else {
        let rest = s.skip(i + 1);
        Some(rest.subrange(0, first_idx(rest, '\t')))
    }
}

/// The first character of a line, a space when it is empty.
pub open spec fn first_or_space(s: Seq<char>) -> char {
    if s.len() == 0 {
        ' '
    } else {
        s[0]
    }
}

/// The header phase of the commit parser: lines up to and including the
/// first empty one join the metadata; returns the metadata so far and the
/// index of the first unread line.
pub open spec fn commit_header(lines: Seq<Seq<char>>, i: int, metadata: Seq<Seq<char>>) -> (
    int,
    Seq<Seq<char>>,
)
    decreases lines.len() - i,
{
    if i < 0 || i >= lines.len() {
        (i, metadata)
    } else if lines[i].len() == 0 {
        (i + 1, metadata.push(Seq::empty()))
    } else {
        commit_header(lines, i + 1, metadata.push(lines[i]))
    }
}

/// The status a name-status letter denotes in a commit's file list.
pub open spec fn commit_file_status(c: char) -> FileStatus {
    if c == 'M' {
        FileStatus::Modified
    } else if c == 'A' {
        FileStatus::New
    } else {
        FileStatus::Deleted
    }
}

/// The body phase of the commit parser: indented lines extend the metadata
/// until a line starts with a non-white-space character; from there,
/// name-status lines feed the file list until a line fits neither, which
/// ends the parse. A file line without a tab is a parse error (`None`).
pub open spec fn commit_body(
    lines: Seq<Seq<char>>,
    i: int,
    metadata: Seq<Seq<char>>,
    files: Seq<(FileStatus, Seq<char>)>,
    parsing_files: bool,
) -> Option<(Seq<Seq<char>>, Seq<(FileStatus, Seq<char>)>)>
    decreases lines.len() - i,
{
    if i < 0 || i >= lines.len() {
        Some((metadata, files))
    } else {
        let l = lines[i];
        let c = first_or_space(l);
        if !parsing_files && char_is_whitespace(c) {
            commit_body(lines, i + 1, metadata.push(l), files, false)
        } else if c == 'M' || c == 'A' || c == 'D' {
            match tab_second(l) {
                None => None,
                Some(name) => commit_body(
                    lines,
                    i + 1,
                    metadata,
                    files.push((commit_file_status(c), name)),
                    true,
                ),
            }
        } else {
            Some((metadata, files))
        }
    }
}

/// Lines joined with a line break between them.
pub open spec fn join_nl(ls: Seq<Seq<char>>) -> Seq<char>
    decreases ls.len(),
{
    if ls.len() == 0 {
        Seq::empty()
    } else if ls.len() == 1 {
        ls[0]
    } else {
        join_nl(ls.drop_last()) + seq!['\n'] + ls.last()
    }
}

/// What commit-describing output denotes: the hash from the first line's
/// second token, the metadata block, and the name-status file list.
pub open spec fn parse_commit_spec(s: Seq<char>) -> Option<
    (Seq<char>, Seq<(FileStatus, Seq<char>)>, Seq<char>),
> {
    let lines = lines_of(s);
    if lines.len() == 0 {
        None
    } else {
        match second_token(lines[0]) {
            None => None,
            Some(hash) => {
                let (i1, meta1) = commit_header(lines, 1, seq![lines[0]]);
                match commit_body(lines, i1, meta1, Seq::empty(), false) {
                    None => None,
                    Some((meta2, files)) => Some((join_nl(meta2), files, hash)),
                }
            },
        }
    }
}

/// Views of a commit's file list.
pub open spec fn commit_file_views(l: Seq<(FileStatus, String)>) -> Seq<(FileStatus, Seq<char>)> {
    l.map_values(|p: (FileStatus, String)| (p.0, p.1@))
}

/// Join line vectors with a line break between them.
fn join_lines_nl(ls: &Vec<Vec<char>>, upto: usize) -> (r: Vec<char>)
    requires
        upto <= ls@.len(),
    ensures
        r@ == join_nl(line_views(ls@).take(upto as int)),
{
    let mut r: Vec<char> = Vec::new();
    let mut i: usize = 0;
    assert(join_nl(line_views(ls@).take(0)) =~= Seq::<char>::empty());
    assert(r@ =~= Seq::<char>::empty());
    while i < upto
        invariant
            i <= upto <= ls@.len(),
            r@ == join_nl(line_views(ls@).take(i as int)),
        decreases upto - i,
    {
        let ghost pre = line_views(ls@).take(i as int);
        let ghost post = line_views(ls@).take(i + 1);
        assert(post.drop_last() =~= pre && post.last() == ls@[i as int]@);
        assert(post.drop_last() == pre);
        if i > 0 {
            r.push('\n');
        }
        let ghost mid = r@;
        let mut j: usize = 0;
        let line = &ls[i];
        while j < line.len()
            invariant
                j <= line@.len(),
                line@ == ls@[i as int]@,
                r@ == mid + line@.take(j as int),
            decreases line.len() - j,
        {
            r.push(line[j]);
            assert(r@ =~= mid + line@.take(j + 1));
            j += 1;
        }
        assert(line@.take(line@.len() as int) =~= line@);
        proof {
            if i == 0 {
                assert(join_nl(post) == post[0]);
                assert(r@ =~= join_nl(post));
            } else {
                assert(join_nl(post) == join_nl(pre) + seq!['\n'] + post.last());
                assert(r@ =~= join_nl(pre) + seq!['\n'] + post.last());
            }
        }
        i += 1;
    }
    r
}

/// The body phase: indented message lines join the metadata, name-status
/// lines build the file list, and the first line fitting neither ends it.
fn commit_body_exec(
    lines: &Vec<Vec<char>>,
    start: usize,
    metadata: &mut Vec<Vec<char>>,
) -> (r: Result<Vec<(FileStatus, String)>, Error>)
    requires
        start <= lines@.len(),
    ensures
        match r {
            Ok(files) => commit_body(
                line_views(lines@),
                start as int,
                line_views(old(metadata)@),
                Seq::empty(),
                false,
            ) == Some((line_views(final(metadata)@), commit_file_views(files@))),
            Err(e) => commit_body(
                line_views(lines@),
                start as int,
                line_views(old(metadata)@),
                Seq::empty(),
                false,
            ) is None && e@ == ErrorV::GitParsing,
        },
{
    let ghost all = line_views(lines@);
    let mut files: Vec<(FileStatus, String)> = Vec::new();
    let mut parsing_files = false;
    let mut i = start;
    assert(commit_file_views(files@) =~= Seq::<(FileStatus, Seq<char>)>::empty());
    loop
        invariant
            i <= lines@.len(),
            all == line_views(lines@),
            commit_body(all, start as int, line_views(old(metadata)@), Seq::empty(), false)
                == commit_body(
                all,
                i as int,
                line_views(metadata@),
                commit_file_views(files@),
                parsing_files,
            ),
        decreases lines@.len() - i,
    {
        if i >= lines.len() {
            return Ok(files);
        }
        let line = &lines[i];
        assert(line@ == all[i as int]);
        let c = if line.len() == 0 {
            ' '
        } else {
            line[0]
        };
        assert(c == first_or_space(all[i as int]));
        if !parsing_files && is_whitespace_char(c) {
            let ghost m0 = line_views(metadata@);
            metadata.push(subvec(line, 0, line.len()));
            assert(metadata@[metadata@.len() - 1]@ =~= all[i as int]);
            assert(line_views(metadata@) =~= m0.push(all[i as int]));
            i += 1;
        } else if c == 'M' || c == 'A' || c == 'D' {
            proof {
                lemma_first_idx(line@, '\t');
            }
            let tab = find_first(line, '\t');
            if tab == line.len() {
                assert(tab_second(all[i as int]) is None);
                return Err(Error::GitParsing);
            }
            let rest = subvec(line, tab + 1, line.len());
            assert(rest@ =~= all[i as int].skip(tab + 1));
            proof {
                lemma_first_idx(rest@, '\t');
            }
            let tab2 = find_first(&rest, '\t');
            let name = subvec(&rest, 0, tab2);
            assert(tab_second(all[i as int]) == Some(name@));
            let status = match c {
                'M' => FileStatus::Modified,
                'A' => FileStatus::New,
                _ => FileStatus::Deleted,
            };
            assert(status == commit_file_status(c));
            let ghost f0 = commit_file_views(files@);
            files.push((status, chars_to_string(&name)));
            assert(commit_file_views(files@) =~= f0.push((status, name@)));
            parsing_files = true;
            i += 1;
        } else {
            return Ok(files);
        }
    }
}

/// Parse commit-describing output: the first line's second token is the
/// hash, the lines up to the first empty one and the indented message
/// lines are the metadata, and the name-status lines are the files.
pub fn git_parse_commit(output: &str) -> (r: Result<Commit, Error>)
    ensures
        match r {
            Ok(c) => parse_commit_spec(output@) == Some(
                (c.metadata@, commit_file_views(c.files@), c.hash@),
            ),
            Err(e) => parse_commit_spec(output@) is None && e@ == ErrorV::GitParsing,
        },
{
    let v = str_to_chars(output);
    let lines = split_lines(&v);
    let ghost all = lines_of(output@);
    if lines.len() == 0 {
        return Err(Error::GitParsing);
    }
    // the hash: second white-space-separated token of the first line
    let first = &lines[0];
    assert(first@ == all[0]);
    proof {
        lemma_next_ws_bounds(first@, 0);
    }
    let t1s = scan_to_non_ws(first, 0);
    if t1s == first.len() {
        return Err(Error::GitParsing);
    }
    proof {
        lemma_next_ws_bounds(first@, t1s as int);
    }
    let t1e = scan_to_ws(first, t1s);
    proof {
        lemma_next_ws_bounds(first@, t1e as int);
    }
    let t2s = scan_to_non_ws(first, t1e);
    if t2s == first.len() {
        return Err(Error::GitParsing);
    }
    proof {
        lemma_next_ws_bounds(first@, t2s as int);
    }
    let t2e = scan_to_ws(first, t2s);
    let hash_chars = subvec(first, t2s, t2e);
    assert(second_token(all[0]) == Some(hash_chars@));

    // the header: metadata lines up to and including the first empty one
    let mut metadata: Vec<Vec<char>> = Vec::new();
    metadata.push(subvec(first, 0, first.len()));
    assert(metadata@[0]@ =~= all[0]);
    assert(line_views(metadata@) =~= seq![all[0]]);
    let mut i: usize = 1;
    while i < lines.len() && lines[i].len() > 0
        invariant
            1 <= i <= lines@.len(),
            all == lines_of(output@),
            line_views(lines@) == all,
            commit_header(all, 1, seq![all[0]]) == commit_header(all, i as int, line_views(metadata@)),
        decreases lines.len() - i,
    {
        let ghost m0 = line_views(metadata@);
        metadata.push(subvec(&lines[i], 0, lines[i].len()));
        assert(metadata@[metadata@.len() - 1]@ =~= all[i as int]);
        assert(line_views(metadata@) =~= m0.push(all[i as int]));
        i += 1;
    }
    if i < lines.len() {
        // the empty line joins the metadata and the body starts after it
        let ghost m0 = line_views(metadata@);
        metadata.push(Vec::new());
        assert(metadata@[metadata@.len() - 1]@ =~= Seq::<char>::empty());
        assert(line_views(metadata@) =~= m0.push(Seq::empty()));
        i += 1;
    }
    assert(commit_header(all, 1, seq![all[0]]) == (i as int, line_views(metadata@)));

    // the body: message lines, then name-status file lines
    let files = match commit_body_exec(&lines, i, &mut metadata) {
        Ok(files) => files,
        Err(e) => {
            return Err(e);
        },
    };
    let joined = join_lines_nl(&metadata, metadata.len());
    assert(line_views(metadata@).take(metadata@.len() as int) =~= line_views(metadata@));
    Ok(
        Commit {
            metadata: chars_to_string(&joined),
            files,
            hash: chars_to_string(&hash_chars),
        },
    )
}

/// What one stash-list line denotes: the date up to the first space of the
/// tab-separated first field, and the title after the tab.
pub open spec fn stash_line_spec(l: Seq<char>) -> Option<(Seq<char>, Seq<char>)> {
    let t = first_idx(l, '\t');
    if t == l.len() {
        None
    } else {
        let date_part = l.subrange(0, t);
        let sp = first_idx(date_part, ' ');
        if sp == date_part.len() {
            None
        } else {
            Some((date_part.subrange(0, sp), l.skip(t + 1)))
        }
    }
}

/// The stash entries stash-list output denotes; `None` when some line does
/// not fit the `date<tab>title` shape.
pub open spec fn parse_stash_spec(lines: Seq<Seq<char>>) -> Option<Seq<(Seq<char>, Seq<char>)>>
    decreases lines.len(),
{
    if lines.len() == 0 {
        Some(Seq::empty())
    } else {
        match stash_line_spec(lines[0]) {
            None => None,
            Some(p) => match parse_stash_spec(lines.skip(1)) {
                None => None,
                Some(r) => Some(seq![p] + r),
            },
        }
    }
}

/// Views of a stash list.
pub open spec fn stash_views(l: Seq<Stash>) -> Seq<(Seq<char>, Seq<char>)> {
    l.map_values(|st: Stash| (st.date@, st.title@))
}

/// Parse stash-list output: one entry per `date<tab>title` line.
pub fn parse_stash_list(output: &str) -> (r: Result<Vec<Stash>, Error>)
    ensures
        match r {
            Ok(entries) => parse_stash_spec(lines_of(output@)) == Some(stash_views(entries@)),
            Err(e) => parse_stash_spec(lines_of(output@)) is None && e@ == ErrorV::GitParsing,
        },
{
    let v = str_to_chars(output);
    let lines = split_lines(&v);
    let ghost all = lines_of(output@);
    let mut out: Vec<Stash> = Vec::new();
    let mut i: usize = 0;
    proof {
        assert(all.skip(0) =~= all);
        assert(stash_views(out@) =~= Seq::<(Seq<char>, Seq<char>)>::empty());
    }
    while i < lines.len()
        invariant
            i <= lines@.len(),
            all == lines_of(output@),
            line_views(lines@) == all,
            parse_stash_spec(all) == (match parse_stash_spec(all.skip(i as int)) {
                Some(r) => Some(stash_views(out@) + r),
                None => None,
            }),
        decreases lines.len() - i,
    {
        let line = &lines[i];
        assert(line@ == all[i as int]);
        let ghost rest = all.skip(i as int);
        assert(rest[0] == all[i as int] && rest.skip(1) =~= all.skip(i + 1));
        proof {
            lemma_first_idx(line@, '\t');
        }
        let t = find_first(line, '\t');
        if t == line.len() {
            return Err(Error::GitParsing);
        }
        let date_part = subvec(line, 0, t);
        proof {
            lemma_first_idx(date_part@, ' ');
        }
        let sp = find_first(&date_part, ' ');
        if sp == date_part.len() {
            return Err(Error::GitParsing);
        }
        let date = subvec(&date_part, 0, sp);
        let title = subvec(line, t + 1, line.len());
        assert(title@ =~= all[i as int].skip(t + 1));
        let ghost s0 = stash_views(out@);
        out.push(
            Stash { date: chars_to_string(&date), title: chars_to_string(&title) },
        );
        proof {
            assert(stash_views(out@) =~= s0.push((date@, title@)));
            assert(stash_line_spec(all[i as int]) == Some((date@, title@)));
            if parse_stash_spec(all.skip(i + 1)) is Some {
                let tail = parse_stash_spec(all.skip(i + 1))->0;
                assert(s0 + (seq![(date@, title@)] + tail) =~= stash_views(out@) + tail);
            }
        }
        i += 1;
    }
    assert(all.skip(lines@.len() as int).len() == 0);
    assert(stash_views(out@) + Seq::<(Seq<char>, Seq<char>)>::empty() =~= stash_views(out@));
    Ok(out)
}

/// What a rename line offers: on a line starting with `R` and holding
/// exactly three white-space-separated tokens whose third is the current
/// name, the second token is the previous name.
pub open spec fn rename_line_spec(l: Seq<char>, current: Seq<char>) -> Option<Seq<char>> {
    if l.len() > 0 && l[0] == 'R' {
        let t1e = next_ws(l, next_non_ws(l, 0));
        let t2s = next_non_ws(l, t1e);
        let t2e = next_ws(l, t2s);
        let t3s = next_non_ws(l, t2e);
        let t3e = next_ws(l, t3s);
        if t2s < l.len() && t3s < l.len() && next_non_ws(l, t3e) == l.len() && l.subrange(t3s, t3e)
            == current {
            Some(l.subrange(t2s, t2e))
        } else {
            None
        }
    } else {
        None
    }
}

/// The previous name the first matching rename line gives, if any.
pub open spec fn first_rename(lines: Seq<Seq<char>>, current: Seq<char>) -> Option<Seq<char>>
    decreases lines.len(),
{
    if lines.len() == 0 {
        None
    } else {
        match rename_line_spec(lines[0], current) {
            Some(prev) => Some(prev),
            None => first_rename(lines.skip(1), current),
        }
    }
}

/// The name a file had before the revision that renamed it: read off the
/// first matching rename line of name-status diff output; the current name
/// when no line names the rename.
pub fn previous_filename_from_diff(stdout: &str, current_filename: &str) -> (r: String)
    ensures
        r@ == match first_rename(lines_of(stdout@), current_filename@) {
            Some(prev) => prev,
            None => current_filename@,
        },
{
    let v = str_to_chars(stdout);
    let lines = split_lines(&v);
    let ghost all = lines_of(stdout@);
    let cur = str_to_chars(current_filename);
    let mut i: usize = 0;
    proof {
        assert(all.skip(0) =~= all);
    }
    while i < lines.len()
        invariant
            i <= lines@.len(),
            all == lines_of(stdout@),
            line_views(lines@) == all,
            cur@ == current_filename@,
            first_rename(all, current_filename@) == first_rename(
                all.skip(i as int),
                current_filename@,
            ),
        decreases lines.len() - i,
    {
        let line = &lines[i];
        assert(line@ == all[i as int]);
        let ghost rest = all.skip(i as int);
        assert(rest[0] == all[i as int] && rest.skip(1) =~= all.skip(i + 1));
        if line.len() > 0 && line[0] == 'R' {
            proof {
                lemma_next_ws_bounds(line@, 0);
            }
            let t1s = scan_to_non_ws(line, 0);
            proof {
                lemma_next_ws_bounds(line@, t1s as int);
            }
            let t1e = scan_to_ws(line, t1s);
            proof {
                lemma_next_ws_bounds(line@, t1e as int);
            }
            let t2s = scan_to_non_ws(line, t1e);
            proof {
                lemma_next_ws_bounds(line@, t2s as int);
            }
            let t2e = scan_to_ws(line, t2s);
            proof {
                lemma_next_ws_bounds(line@, t2e as int);
            }
            let t3s = scan_to_non_ws(line, t2e);
            proof {
                lemma_next_ws_bounds(line@, t3s as int);
            }
            let t3e = scan_to_ws(line, t3s);
            proof {
                lemma_next_ws_bounds(line@, t3e as int);
            }
            let t4s = scan_to_non_ws(line, t3e);
            if t2s < line.len() && t3s < line.len() && t4s == line.len() {
                let third = subvec(line, t3s, t3e);
                if crate::text::chars_eq_str(&third, current_filename) {
                    let prev = subvec(line, t2s, t2e);
                    assert(rename_line_spec(all[i as int], current_filename@) == Some(prev@));
                    return chars_to_string(&prev);
                }
            }
            assert(rename_line_spec(all[i as int], current_filename@) is None);
        } else {
            assert(rename_line_spec(all[i as int], current_filename@) is None);
        }
        i += 1;
    }
    assert(all.skip(lines@.len() as int).len() == 0);
    String::from_str(current_filename)
}

/// The revision a blame hash names: a boundary-commit marker `^` in front
/// of the hash is dropped.
pub fn blame_rev(hash: &String) -> (r: String)
    ensures
        r@ == if hash@.len() > 0 && hash@[0] == '^' {
            hash@.skip(1)
        } else {
            hash@
        },
{
    let v = str_to_chars(hash.as_str());
    if v.len() > 0 && v[0] == '^' {
        let rest = subvec(&v, 1, v.len());
        assert(rest@ =~= hash@.skip(1));
        chars_to_string(&rest)
    } else {
        hash.clone()
    }
}

/// A repository root under a `C:/` drive letter is remapped to the mount
/// point a Unix-like environment sees it under; other roots are kept.
pub fn adapt_repo_root(root: String) -> (r: String)
    ensures
        r@ == if starts_with(root@, "C:/"@) {
            "/mnt/c/"@ + root@.skip(3)
        } else {
            root@
        },
{
    let v = str_to_chars(root.as_str());
    if starts_with_at(&v, "C:/", 0) {
        proof {
            reveal_strlit("C:/");
        }
        let mut out = String::from_str("/mnt/c/");
        let rest = subvec(&v, 3, v.len());
        let rest_s = chars_to_string(&rest);
        out.append(rest_s.as_str());
        proof {
            assert(root@.subrange(3, root@.len() as int) =~= root@.skip(3));
        }
        out
    } else {
        root
    }
}

} // verus!
