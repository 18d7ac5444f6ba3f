//! The status view's working-tree logic: parsing porcelain status output,
//! toggling a file between the staged and unstaged halves, and the sorted
//! tables each half displays.

use vstd::prelude::*;

use crate::errors::{Error, ErrorV};
use crate::git::{FileStatus, GitFile, StagedStatus};
use crate::state::ListCursor;
use crate::text::{
    lines_of, split_lines, str_to_chars, subvec, trim_chars, trim_spec, line_views,
};

verus! {

/// Lexicographic order on names, by code point, as comparing the bytes of
/// their UTF-8 encodings orders them.
pub open spec fn lex_le(a: Seq<char>, b: Seq<char>) -> bool
    decreases a.len(),
{
    if a.len() == 0 {
        true
    } else if b.len() == 0 {
        false
    } else if a[0] != b[0] {
        a[0] < b[0]
    } else {
        lex_le(a.drop_first(), b.drop_first())
    }
}

pub proof fn lemma_lex_total(a: Seq<char>, b: Seq<char>)
    ensures
        lex_le(a, b) || lex_le(b, a),
    decreases a.len(),
{
    if a.len() > 0 && b.len() > 0 && a[0] == b[0] {
        lemma_lex_total(a.drop_first(), b.drop_first());
    }
}

pub proof fn lemma_lex_trans(a: Seq<char>, b: Seq<char>, c: Seq<char>)
    requires
        lex_le(a, b),
        lex_le(b, c),
    ensures
        lex_le(a, c),
    decreases a.len(),
{
    if a.len() > 0 && b.len() > 0 && c.len() > 0 && a[0] == b[0] && b[0] == c[0] {
        lemma_lex_trans(a.drop_first(), b.drop_first(), c.drop_first());
    }
}

/// Compare two names lexicographically.
pub fn lex_le_strings(a: &String, b: &String) -> (r: bool)
    ensures
        r == lex_le(a@, b@),
{
    let av = str_to_chars(a.as_str());
    let bv = str_to_chars(b.as_str());
    let mut i: usize = 0;
    assert(a@.skip(0) =~= a@ && b@.skip(0) =~= b@);
    while i < av.len() && i < bv.len()
        invariant
            i <= av@.len(),
            i <= bv@.len(),
            av@ == a@,
            bv@ == b@,
            lex_le(a@, b@) == lex_le(a@.skip(i as int), b@.skip(i as int)),
        decreases av.len() - i,
    {
        let ghost ra = a@.skip(i as int);
        let ghost rb = b@.skip(i as int);
        if av[i] != bv[i] {
            return av[i] < bv[i];
        }
        assert(ra.drop_first() =~= a@.skip(i + 1));
        assert(rb.drop_first() =~= b@.skip(i + 1));
        i += 1;
    }
    av.len() <= bv.len()
}

/// Order of two table entries: by status rank, then by name.
pub open spec fn entry_le(a: (FileStatus, Seq<char>), b: (FileStatus, Seq<char>)) -> bool {
    a.0.rank_spec() < b.0.rank_spec() || (a.0.rank_spec() == b.0.rank_spec() && lex_le(a.1, b.1))
}

/// Views of a status table.
pub open spec fn table_views(l: Seq<(FileStatus, String)>) -> Seq<(FileStatus, Seq<char>)> {
    l.map_values(|p: (FileStatus, String)| (p.0, p.1@))
}

/// The table is ordered by status rank, then name.
pub open spec fn table_sorted(t: Seq<(FileStatus, Seq<char>)>) -> bool {
    forall|i: int, j: int| 0 <= i < j < t.len() ==> entry_le(#[trigger] t[i], #[trigger] t[j])
}

fn entry_le_exec(a_status: FileStatus, a_name: &String, b_status: FileStatus, b_name: &String) -> (
    r: bool)
    ensures
        r == entry_le((a_status, a_name@), (b_status, b_name@)),
{
    let ra = a_status.rank();
    let rb = b_status.rank();
    if ra < rb {
        true
    } else if ra > rb {
        false
    } else {
        lex_le_strings(a_name, b_name)
    }
}

/// First position whose entry does not come before the new one.
fn insert_position(table: &Vec<(FileStatus, String)>, status: FileStatus, name: &String) -> (p:
    usize)
    ensures
        p <= table@.len(),
        forall|i: int| 0 <= i < p ==> entry_le(#[trigger] table_views(table@)[i], (status, name@)),
        p < table@.len() ==> !entry_le(table_views(table@)[p as int], (status, name@)),
{
    let ghost tv = table_views(table@);
    let ghost x = (status, name@);
    let mut p: usize = 0;
    while p < table.len()
        invariant
            p <= table@.len(),
            tv == table_views(table@),
            x == (status, name@),
            forall|i: int| 0 <= i < p ==> entry_le(#[trigger] tv[i], x),
        decreases table.len() - p,
    {
        let e = &table[p];
        assert(tv[p as int] == (table@[p as int].0, table@[p as int].1@));
        if !entry_le_exec(e.0, &e.1, status, name) {
            return p;
        }
        p += 1;
    }
    p
}

/// Insert an entry into a sorted table, keeping it sorted; the table gains
/// exactly that entry.
fn insert_sorted(table: &mut Vec<(FileStatus, String)>, status: FileStatus, name: String)
    requires
        table_sorted(table_views(old(table)@)),
    ensures
        table_sorted(table_views(final(table)@)),
        table_views(final(table)@).to_multiset() == table_views(old(table)@).to_multiset().insert(
            (status, name@),
        ),
{
    broadcast use vstd::seq_lib::group_to_multiset_ensures;

    let ghost tv = table_views(table@);
    let ghost x = (status, name@);
    let p = insert_position(table, status, &name);
    proof {
        if p < table@.len() {
            assert(tv[p as int] == (table@[p as int].0, table@[p as int].1@));
            lemma_lex_total(tv[p as int].1, x.1);
            assert(entry_le(x, tv[p as int]));
        }
    }
    table.insert(p, (status, name));
    proof {
        let nv = table_views(table@);
        assert(nv =~= tv.insert(p as int, x)) by {
            assert(forall|k: int|
                0 <= k < nv.len() ==> nv[k] == (table@[k].0, #[trigger] table@[k].1@));
        }
        assert forall|i: int, j: int|
            0 <= i < j < nv.len() implies entry_le(#[trigger] nv[i], #[trigger] nv[j]) by {
            let oi = if i < p {
                i
            } else {
                i - 1
            };
            let oj = if j < p {
                j
            } else {
                j - 1
            };
            if i == p {
                // x against a later entry
                assert(nv[j] == tv[oj] && oj >= p);
                if oj > p {
                    assert(entry_le(tv[p as int], tv[oj]));
                    if tv[p as int].0.rank_spec() == x.0.rank_spec() && tv[p as int].0.rank_spec()
                        == tv[oj].0.rank_spec() {
                        lemma_lex_trans(x.1, tv[p as int].1, tv[oj].1);
                    }
                }
            } else if j == p {
                assert(nv[i] == tv[oi] && oi < p);
            } else {
                assert(nv[i] == tv[oi] && nv[j] == tv[oj]);
                if oi == oj {
                    // straddling the insertion point: tv[oi] <= x <= tv[oj]
                    assert(i < p && j > p);
                    assert(entry_le(tv[oi], x) && entry_le(x, tv[oj]));
                    if tv[oi].0.rank_spec() == x.0.rank_spec() && x.0.rank_spec()
                        == tv[oj].0.rank_spec() {
                        lemma_lex_trans(tv[oi].1, x.1, tv[oj].1);
                    }
                } else {
                    assert(entry_le(tv[oi], tv[oj]));
                }
            }
        }
        // the multiset gains exactly the inserted entry
        let s2 = tv.insert(p as int, x);
        assert(s2.remove(p as int) =~= tv);
        assert(s2.remove(p as int).to_multiset() =~= s2.to_multiset().remove(s2[p as int]));
        assert(s2[p as int] == x);
        assert(s2.to_multiset().contains(x)) by {
            assert(s2[p as int] == x);
        }
        assert(s2.to_multiset() =~= tv.to_multiset().insert(x));
    }
}

/// The table entries a file list induces for one side: each file whose
/// status on that side is present, under that status.
pub open spec fn side_entries(fs: Seq<(String, GitFile)>, staged: bool) -> Seq<
    (FileStatus, Seq<char>),
> {
    fs.filter(
        |p: (String, GitFile)|
            (if staged {
                p.1.staged_status
            } else {
                p.1.unstaged_status
            }) != FileStatus::Absent,
    ).map_values(
        |p: (String, GitFile)|
            (
                if staged {
                    p.1.staged_status
                } else {
                    p.1.unstaged_status
                },
                p.0@,
            ),
    )
}

/// Rebuild one side's table: sorted, holding exactly that side's entries.
fn compute_side(files: &Vec<(String, GitFile)>, table: &mut Vec<(FileStatus, String)>, staged: bool)
    ensures
        table_sorted(table_views(final(table)@)),
        table_views(final(table)@).to_multiset() == side_entries(files@, staged).to_multiset(),
{
    broadcast use vstd::seq_lib::group_to_multiset_ensures;

    let ghost pred = |p: (String, GitFile)|
        (if staged {
            p.1.staged_status
        } else {
            p.1.unstaged_status
        }) != FileStatus::Absent;
    let ghost f = |p: (String, GitFile)|
        (
            if staged {
                p.1.staged_status
            } else {
                p.1.unstaged_status
            },
            p.0@,
        );
    let mut out: Vec<(FileStatus, String)> = Vec::new();
    let mut i: usize = 0;
    proof {
        reveal(Seq::filter);
        assert(table_views(out@).to_multiset() =~= files@.take(0).filter(pred).map_values(
            f,
        ).to_multiset());
    }
    while i < files.len()
        invariant
            i <= files@.len(),
            pred == (|p: (String, GitFile)|
                (if staged {
                    p.1.staged_status
                } else {
                    p.1.unstaged_status
                }) != FileStatus::Absent),
            f == (|p: (String, GitFile)|
                (
                    if staged {
                        p.1.staged_status
                    } else {
                        p.1.unstaged_status
                    },
                    p.0@,
                )),
            table_sorted(table_views(out@)),
            table_views(out@).to_multiset() == files@.take(i as int).filter(pred).map_values(
                f,
            ).to_multiset(),
        decreases files.len() - i,
    {
        proof {
            reveal(Seq::filter);
        }
        let ghost pre = files@.take(i as int);
        let ghost post = files@.take(i + 1);
        assert(post.drop_last() =~= pre && post.last() == files@[i as int]);
        assert(post.drop_last() == pre);
        let entry = &files[i];
        let status = if staged {
            entry.1.staged_status
        } else {
            entry.1.unstaged_status
        };
        if !matches!(status, FileStatus::Absent) {
            assert(pred(files@[i as int]));
            assert(post.filter(pred) == pre.filter(pred).push(files@[i as int]));
            insert_sorted(&mut out, status, entry.0.clone());
            proof {
                broadcast use vstd::seq_lib::group_to_multiset_ensures;

                let m1 = pre.filter(pred).map_values(f);
                let m2 = post.filter(pred).map_values(f);
                assert(m2 =~= m1.push(f(files@[i as int])));
                assert(f(files@[i as int]) == (status, files@[i as int].0@));
                assert(m2.to_multiset() =~= m1.to_multiset().insert(f(files@[i as int])));
            }
        } else {
            assert(!pred(files@[i as int]));
            assert(post.filter(pred) == pre.filter(pred));
        }
        i += 1;
    }
    assert(files@.take(files@.len() as int) =~= files@);
    *table = out;
}

/// Rebuild both tables of the status view, each sorted by status rank and
/// then name, holding exactly the files present on its side.
pub fn compute_tables(
    files: &Vec<(String, GitFile)>,
    unstaged_table: &mut Vec<(FileStatus, String)>,
    staged_table: &mut Vec<(FileStatus, String)>,
)
    ensures
        table_sorted(table_views(final(unstaged_table)@)),
        table_sorted(table_views(final(staged_table)@)),
        table_views(final(unstaged_table)@).to_multiset() == side_entries(
            files@,
            false,
        ).to_multiset(),
        table_views(final(staged_table)@).to_multiset() == side_entries(
            files@,
            true,
        ).to_multiset(),
{
    compute_side(files, unstaged_table, false);
    compute_side(files, staged_table, true);
}

/// Switch the focused half of the status view and rewind the selection.
pub fn switch_staged_status(staged_status: &mut StagedStatus, list: &mut ListCursor)
    ensures
        *final(staged_status) == (match *old(staged_status) {
            StagedStatus::Unstaged => StagedStatus::Staged,
            StagedStatus::Staged => StagedStatus::Unstaged,
        }),
        final(list).selected == Some(0usize),
        final(list).offset == old(list).offset,
{
    *staged_status = match staged_status {
        StagedStatus::Unstaged => StagedStatus::Staged,
        StagedStatus::Staged => StagedStatus::Unstaged,
    };
    list.select_first();
}

/// Toggle a file between the halves: an unmerged file being staged becomes
/// a staged modification; otherwise the status moves to the other side and
/// the toggled side empties.
pub fn toggle_stage_git_file(git_file: &mut GitFile, staged_status: StagedStatus)
    ensures
        final(git_file).init_unstaged_status == old(git_file).init_unstaged_status,
        final(git_file).init_staged_status == old(git_file).init_staged_status,
        if staged_status == StagedStatus::Unstaged && old(git_file).unstaged_status
            == FileStatus::Unmerged {
            final(git_file).unstaged_status == FileStatus::Absent && final(git_file).staged_status
                == FileStatus::Modified
        } else {
            match staged_status {
                StagedStatus::Unstaged => final(git_file).unstaged_status == FileStatus::Absent
                    && final(git_file).staged_status == old(git_file).unstaged_status,
                StagedStatus::Staged => final(git_file).unstaged_status == old(
                    git_file,
                ).staged_status && final(git_file).staged_status == FileStatus::Absent,
            }
        },
{
    if matches!(staged_status, StagedStatus::Unstaged) && matches!(
        git_file.unstaged_status,
        FileStatus::Unmerged,
    ) {
        git_file.set_status(FileStatus::Absent, FileStatus::Modified);
        return ;
    }
    match staged_status {
        StagedStatus::Unstaged => {
            let moved = git_file.unstaged_status;
            git_file.set_status(FileStatus::Absent, moved);
        },
        StagedStatus::Staged => {
            let moved = git_file.staged_status;
            git_file.set_status(moved, FileStatus::Absent);
        },
    }
}

/// What toggling does to a file's sides.
pub open spec fn toggle_spec(gf: GitFile, staged_status: StagedStatus) -> GitFile {
    if staged_status == StagedStatus::Unstaged && gf.unstaged_status == FileStatus::Unmerged {
        GitFile { unstaged_status: FileStatus::Absent, staged_status: FileStatus::Modified, ..gf }
    } else {
        match staged_status {
            StagedStatus::Unstaged => GitFile {
                unstaged_status: FileStatus::Absent,
                staged_status: gf.unstaged_status,
                ..gf
            },
            StagedStatus::Staged => GitFile {
                unstaged_status: gf.staged_status,
                staged_status: FileStatus::Absent,
                ..gf
            },
        }
    }
}

/// The file list holds an entry of this name.
pub open spec fn has_file(fs: Seq<(Seq<char>, GitFile)>, name: Seq<char>) -> bool {
    exists|i: int| 0 <= i < fs.len() && fs[i].0 == name
}

/// The index of the first entry of `name`, if the list holds one.
fn files_find(files: &Vec<(String, GitFile)>, name: &String) -> (r: Option<usize>)
    ensures
        match r {
            Some(i) => i < files@.len() && files@[i as int].0@ == name@,
            None => !has_file(file_views(files@), name@),
        },
{
    let mut i: usize = 0;
    while i < files.len()
        invariant
            i <= files@.len(),
            forall|j: int| 0 <= j < i ==> (#[trigger] file_views(files@)[j]).0 != name@,
        decreases files.len() - i,
    {
        assert(file_views(files@)[i as int] == (files@[i as int].0@, files@[i as int].1));
        if files[i].0 == *name {
            return Some(i);
        }
        i += 1;
    }
    None
}

/// Toggle one file between the halves and rebuild both tables. A name the
/// list does not hold is reported, and nothing changes.
pub fn stage_unstage_file(
    files: &mut Vec<(String, GitFile)>,
    name: &String,
    staged_status: StagedStatus,
    unstaged_table: &mut Vec<(FileStatus, String)>,
    staged_table: &mut Vec<(FileStatus, String)>,
) -> (r: Result<(), Error>)
    ensures
        match r {
            Ok(_) => exists|i: int|
                0 <= i < old(files)@.len() && (#[trigger] file_views(old(files)@)[i]).0 == name@
                    && file_views(final(files)@) == files_set_spec(
                    file_views(old(files)@),
                    name@,
                    toggle_spec(file_views(old(files)@)[i].1, staged_status),
                ),
            Err(e) => !has_file(file_views(old(files)@), name@) && e@
                == ErrorV::UnknownFilename(name@) && final(files)@ == old(files)@
                && final(unstaged_table)@ == old(unstaged_table)@ && final(staged_table)@
                == old(staged_table)@,
        },
        r is Ok ==> table_sorted(table_views(final(unstaged_table)@)) && table_sorted(
            table_views(final(staged_table)@),
        ) && table_views(final(unstaged_table)@).to_multiset() == side_entries(
            final(files)@,
            false,
        ).to_multiset() && table_views(final(staged_table)@).to_multiset() == side_entries(
            final(files)@,
            true,
        ).to_multiset(),
{
    let i = match files_find(files, name) {
        Some(i) => i,
        None => {
            return Err(Error::UnknownFilename(name.clone()));
        },
    };
    let mut gf = files[i].1;
    let ghost old_gf = gf;
    toggle_stage_git_file(&mut gf, staged_status);
    assert(gf == toggle_spec(old_gf, staged_status));
    assert(file_views(files@)[i as int] == (files@[i as int].0@, files@[i as int].1));
    files_set(files, name.clone(), gf);
    compute_tables(files, unstaged_table, staged_table);
    Ok(())
}

/// When one half has entries and the focused one does not, focus moves to
/// the other half and the selection rewinds; otherwise nothing changes.
pub fn switch_if_empty(
    staged_status: &mut StagedStatus,
    list: &mut ListCursor,
    unstaged_table: &Vec<(FileStatus, String)>,
    staged_table: &Vec<(FileStatus, String)>,
) -> (switched: bool)
    ensures
        ({
            let current_len = if *old(staged_status) == StagedStatus::Staged {
                staged_table@.len()
            } else {
                unstaged_table@.len()
            };
            let any = unstaged_table@.len() > 0 || staged_table@.len() > 0;
            if any && current_len == 0 {
                switched && *final(staged_status) == (match *old(staged_status) {
                    StagedStatus::Unstaged => StagedStatus::Staged,
                    StagedStatus::Staged => StagedStatus::Unstaged,
                }) && final(list).selected == Some(0usize) && final(list).offset
                    == old(list).offset
            } else {
                !switched && *final(staged_status) == *old(staged_status)
                    && *final(list) == *old(list)
            }
        }),
{
    let any = unstaged_table.len() > 0 || staged_table.len() > 0;
    let current_empty = match staged_status {
        StagedStatus::Staged => staged_table.len() == 0,
        StagedStatus::Unstaged => unstaged_table.len() == 0,
    };
    if any && current_empty {
        switch_staged_status(staged_status, list);
        true
    } else {
        false
    }
}

/// The unstaged status a porcelain line's second column denotes.
pub open spec fn unstaged_of(c: char) -> FileStatus {
    if c == '?' {
        FileStatus::New
    } else if c == 'D' {
        FileStatus::Deleted
    } else if c == 'M' {
        FileStatus::Modified
    } else if c == 'U' {
        FileStatus::Unmerged
    } else {
        FileStatus::Absent
    }
}

/// The staged status a porcelain line's first column denotes.
pub open spec fn staged_of(c: char) -> FileStatus {
    if c == 'A' {
        FileStatus::New
    } else if c == 'D' {
        FileStatus::Deleted
    } else if c == 'M' {
        FileStatus::Modified
    } else {
        FileStatus::Absent
    }
}

/// Views of the file list.
pub open spec fn file_views(fs: Seq<(String, GitFile)>) -> Seq<(Seq<char>, GitFile)> {
    fs.map_values(|p: (String, GitFile)| (p.0@, p.1))
}

/// Upserting a file: any entry of the same name leaves, the new one is
/// appended.
pub open spec fn files_set_spec(
    fs: Seq<(Seq<char>, GitFile)>,
    name: Seq<char>,
    gf: GitFile,
) -> Seq<(Seq<char>, GitFile)> {
    fs.filter(|p: (Seq<char>, GitFile)| p.0 != name).push((name, gf))
}

/// The file list porcelain status output denotes, folded line by line:
/// each line's two status columns and trimmed filename upsert one file.
/// `None` when some line is shorter than the two status columns.
pub open spec fn parse_status_fold(
    acc: Seq<(Seq<char>, GitFile)>,
    lines: Seq<Seq<char>>,
) -> Option<Seq<(Seq<char>, GitFile)>>
    decreases lines.len(),
{
    if lines.len() == 0 {
        Some(acc)
    } else {
        let l = lines[0];
        if l.len() < 2 {
            None
        } else {
            let gf = GitFile {
                unstaged_status: unstaged_of(l[1]),
                staged_status: staged_of(l[0]),
                init_unstaged_status: unstaged_of(l[1]),
                init_staged_status: staged_of(l[0]),
            };
            parse_status_fold(files_set_spec(acc, trim_spec(l.skip(2)), gf), lines.skip(1))
        }
    }
}

/// Replace any entry of `name` in the file list and append the new one.
fn files_set(files: &mut Vec<(String, GitFile)>, name: String, gf: GitFile)
    ensures
        file_views(final(files)@) == files_set_spec(file_views(old(files)@), name@, gf),
{
    let ghost pred = |p: (Seq<char>, GitFile)| p.0 != name@;
    let mut out: Vec<(String, GitFile)> = Vec::new();
    let mut i: usize = 0;
    proof {
        reveal(Seq::filter);
    }
    assert(file_views(out@) =~= file_views(files@).take(0).filter(pred));
    while i < files.len()
        invariant
            i <= files@.len(),
            pred == (|p: (Seq<char>, GitFile)| p.0 != name@),
            file_views(out@) == file_views(files@).take(i as int).filter(pred),
        decreases files.len() - i,
    {
        proof {
            reveal(Seq::filter);
        }
        let ghost pre = file_views(files@).take(i as int);
        let ghost post = file_views(files@).take(i + 1);
        assert(post.drop_last() =~= pre && post.last() == (files@[i as int].0@, files@[i as int].1));
        assert(post.drop_last() == pre);
        let e = &files[i];
        if !(e.0 == name) {
            out.push((e.0.clone(), e.1));
            assert(file_views(out@) =~= post.filter(pred));
        } else {
            assert(file_views(out@) =~= post.filter(pred));
        }
        i += 1;
    }
    proof {
        reveal(Seq::filter);
    }
    assert(file_views(files@).take(files@.len() as int) =~= file_views(files@));
    out.push((name, gf));
    assert(file_views(out@) =~= files_set_spec(file_views(files@), name@, gf));
    *files = out;
}

/// Parse porcelain status output into the file list, replacing what the
/// list held. A line too short for the two status columns is a parse error.
pub fn parse_git_status(files: &mut Vec<(String, GitFile)>, output: &str) -> (r: Result<(), Error>)
    ensures
        match r {
            Ok(_) => parse_status_fold(Seq::empty(), lines_of(output@)) == Some(
                file_views(final(files)@),
            ),
            Err(e) => parse_status_fold(Seq::empty(), lines_of(output@)) is None && e@
                == ErrorV::GitParsing,
        },
{
    let v = str_to_chars(output);
    let lines = split_lines(&v);
    let ghost all = lines_of(output@);
    let mut out: Vec<(String, GitFile)> = Vec::new();
    let mut i: usize = 0;
    proof {
        assert(all.skip(0) =~= all);
        assert(file_views(out@) =~= Seq::<(Seq<char>, GitFile)>::empty());
    }
    while i < lines.len()
        invariant
            i <= lines@.len(),
            all == lines_of(output@),
            line_views(lines@) == all,
            parse_status_fold(file_views(out@), all.skip(i as int)) == parse_status_fold(
                Seq::empty(),
                all,
            ),
        decreases lines.len() - i,
    {
        let line = &lines[i];
        assert(line@ == all[i as int]);
        let ghost rest = all.skip(i as int);
        assert(rest[0] == all[i as int] && rest.skip(1) =~= all.skip(i + 1));
        if line.len() < 2 {
            assert(parse_status_fold(file_views(out@), rest) is None);
            assert(parse_status_fold(Seq::<(Seq<char>, GitFile)>::empty(), all) is None);
            return Err(Error::GitParsing);
        }
        let first = line[0];
        let second = line[1];
        let unstaged_status = match second {
            '?' => FileStatus::New,
            'D' => FileStatus::Deleted,
            'M' => FileStatus::Modified,
            'U' => FileStatus::Unmerged,
            _ => FileStatus::Absent,
        };
        let staged_status = match first {
            'A' => FileStatus::New,
            'D' => FileStatus::Deleted,
            'M' => FileStatus::Modified,
            _ => FileStatus::Absent,
        };
        assert(unstaged_status == unstaged_of(line@[1]) && staged_status == staged_of(line@[0]));
        let tail = subvec(line, 2, line.len());
        let trimmed = trim_chars(&tail);
        assert(trimmed@ == trim_spec(all[i as int].skip(2))) by {
            assert(tail@ =~= all[i as int].skip(2));
        }
        let name = crate::text::chars_to_string(&trimmed);
        let gf = GitFile::new(unstaged_status, staged_status);
        proof {
            assert(gf == (GitFile {
                unstaged_status: unstaged_of(all[i as int][1]),
                staged_status: staged_of(all[i as int][0]),
                init_unstaged_status: unstaged_of(all[i as int][1]),
                init_staged_status: staged_of(all[i as int][0]),
            }));
        }
        let ghost acc0 = file_views(out@);
        files_set(&mut out, name, gf);
        proof {
            assert(parse_status_fold(acc0, rest) == parse_status_fold(
                file_views(out@),
                all.skip(i + 1),
            ));
        }
        i += 1;
    }
    assert(all.skip(lines@.len() as int).len() == 0);
    *files = out;
    Ok(())
}

} // verus!
