//! Laws of blaming: what the grouping of blamed lines keeps, and which lines
//! are blamed on a user.

use vstd::prelude::*;

use crate::git::{
    blame_groups, blame_lines, blame_paths, blame_spec, file_lines, group_fold, hunk_holds, lines_in_hunk,
    resolved_user, user_lines, BlameHunk, RepoBlame,
};
use crate::paths::relative_path_of;
use crate::search::{FileFinding, SearchResult};

verus! {

/// All the line numbers of `groups`, group after group.
pub open spec fn concat_lines(groups: Seq<Seq<usize>>) -> Seq<usize>
    decreases groups.len(),
{
    if groups.len() == 0 {
        seq![]
    } else {
        concat_lines(groups.drop_last()) + groups.last()
    }
}

/// The line lists of `groups`.
pub open spec fn group_line_lists(groups: Seq<(Seq<char>, Seq<usize>)>) -> Seq<Seq<usize>> {
    groups.map_values(|g: (Seq<char>, Seq<usize>)| g.1)
}

proof fn lemma_fold_keeps_lines(paths: Seq<Seq<char>>, lines: Seq<Seq<usize>>)
    requires
        paths.len() == lines.len(),
    ensures
        ({
            let (found, cur, pending) = group_fold(paths, lines);
            concat_lines(group_line_lists(found)) + pending == concat_lines(lines)
        }),
    decreases paths.len(),
{
    if paths.len() > 0 {
        let ps = paths.drop_last();
        let ls = lines.drop_last();
        lemma_fold_keeps_lines(ps, ls);
        let (found, cur, pending) = group_fold(ps, ls);
        let path = paths.last();
        let last = lines.last();
        if cur.len() > 0 && cur != path {
            if pending.len() > 0 {
                let g = found.push((cur, pending));
                assert(group_line_lists(g) =~= group_line_lists(found).push(pending));
                assert(group_line_lists(g).drop_last() =~= group_line_lists(found));
            } else {
                assert(pending =~= seq![]);
                assert(concat_lines(group_line_lists(found)) + pending =~= concat_lines(group_line_lists(found)));
            }
        }
        assert(concat_lines(group_line_lists(found)) + (pending + last)
            =~= (concat_lines(group_line_lists(found)) + pending) + last);
    }
}

/// Blaming loses no line and adds none: the lines of all groups, in order,
/// are the lines of all files, in order.
pub proof fn lemma_blame_keeps_every_line(paths: Seq<Seq<char>>, lines: Seq<Seq<usize>>)
    requires
        paths.len() == lines.len(),
    ensures
        concat_lines(group_line_lists(blame_groups(paths, lines))) == concat_lines(lines),
{
    lemma_fold_keeps_lines(paths, lines);
    let (found, cur, pending) = group_fold(paths, lines);
    if pending.len() > 0 {
        let g = found.push((cur, pending));
        assert(group_line_lists(g) =~= group_line_lists(found).push(pending));
        assert(group_line_lists(g).drop_last() =~= group_line_lists(found));
    } else {
        assert(concat_lines(group_line_lists(found)) + pending =~= concat_lines(group_line_lists(found)));
    }
}

proof fn lemma_fold_groups_have_lines(paths: Seq<Seq<char>>, lines: Seq<Seq<usize>>)
    ensures
        forall|k: int| 0 <= k < group_fold(paths, lines).0.len()
            ==> (#[trigger] group_fold(paths, lines).0[k]).1.len() > 0,
    decreases paths.len(),
{
    if paths.len() > 0 && lines.len() > 0 {
        let ps = paths.drop_last();
        let ls = lines.drop_last();
        lemma_fold_groups_have_lines(ps, ls);
        let (found, cur, pending) = group_fold(ps, ls);
        let next = group_fold(paths, lines).0;
        assert forall|k: int| 0 <= k < next.len() implies (#[trigger] next[k]).1.len() > 0 by {
            if k < found.len() {
                assert(next[k] == found[k]);
            }
        }
    }
}

/// Every group of blamed lines holds at least one line.
pub proof fn lemma_blame_groups_have_lines(paths: Seq<Seq<char>>, lines: Seq<Seq<usize>>)
    ensures
        forall|k: int| 0 <= k < blame_groups(paths, lines).len()
            ==> (#[trigger] blame_groups(paths, lines)[k]).1.len() > 0,
{
    lemma_fold_groups_have_lines(paths, lines);
}

proof fn lemma_fold_group_paths(paths: Seq<Seq<char>>, lines: Seq<Seq<usize>>)
    requires
        paths.len() == lines.len(),
    ensures
        forall|k: int| 0 <= k < group_fold(paths, lines).0.len()
            ==> paths.contains((#[trigger] group_fold(paths, lines).0[k]).0),
        group_fold(paths, lines).2.len() > 0 ==> paths.contains(group_fold(paths, lines).1),
    decreases paths.len(),
{
    if paths.len() > 0 {
        let ps = paths.drop_last();
        let ls = lines.drop_last();
        lemma_fold_group_paths(ps, ls);
        let (found, cur, pending) = group_fold(ps, ls);
        assert forall|k: int| 0 <= k < found.len() implies paths.contains(#[trigger] found[k].0) by {
            let j = choose|j: int| 0 <= j < ps.len() && ps[j] == found[k].0;
            assert(paths[j] == ps[j]);
        }
        if pending.len() > 0 {
            let j = choose|j: int| 0 <= j < ps.len() && ps[j] == cur;
            assert(paths[j] == ps[j]);
        }
        assert(paths[paths.len() - 1] == paths.last());
    }
}

/// Every group of blamed lines carries the path of one of the files.
pub proof fn lemma_blame_group_paths(paths: Seq<Seq<char>>, lines: Seq<Seq<usize>>)
    requires
        paths.len() == lines.len(),
    ensures
        forall|k: int| 0 <= k < blame_groups(paths, lines).len()
            ==> paths.contains((#[trigger] blame_groups(paths, lines)[k]).0),
{
    lemma_fold_group_paths(paths, lines);
}

/// The files with at least one line, each with its path and lines, in order.
pub open spec fn files_with_lines(paths: Seq<Seq<char>>, lines: Seq<Seq<usize>>) -> Seq<(Seq<char>, Seq<usize>)>
    decreases paths.len(),
{
    if paths.len() == 0 || lines.len() == 0 {
        seq![]
    } else {
        let rest = files_with_lines(paths.drop_last(), lines.drop_last());
        if lines.last().len() > 0 { rest.push((paths.last(), lines.last())) } else { rest }
    }
}

/// No two consecutive files share a path, and a file with an empty path has
/// no lines.
pub open spec fn groups_separate(paths: Seq<Seq<char>>, lines: Seq<Seq<usize>>) -> bool {
    &&& forall|i: int| 0 <= i < paths.len() - 1 ==> #[trigger] paths[i] != paths[i + 1]
    &&& forall|i: int| 0 <= i < paths.len() && (#[trigger] paths[i]).len() == 0 ==> lines[i].len() == 0
}

proof fn lemma_fold_separate(paths: Seq<Seq<char>>, lines: Seq<Seq<usize>>)
    requires
        paths.len() == lines.len(),
        paths.len() > 0,
        groups_separate(paths, lines),
    ensures
        ({
            let (found, cur, pending) = group_fold(paths, lines);
            &&& found == files_with_lines(paths.drop_last(), lines.drop_last())
            &&& cur == paths.last()
            &&& pending == lines.last()
        }),
    decreases paths.len(),
{
    let ps = paths.drop_last();
    let ls = lines.drop_last();
    if ps.len() == 0 {
        assert(group_fold(ps, ls) == (Seq::<(Seq<char>, Seq<usize>)>::empty(), Seq::<char>::empty(), Seq::<usize>::empty()));
        assert(seq![] + lines.last() =~= lines.last());
    } else {
        assert(groups_separate(ps, ls)) by {
            assert forall|i: int| 0 <= i < ps.len() - 1 implies #[trigger] ps[i] != ps[i + 1] by {
                assert(ps[i] == paths[i] && ps[i + 1] == paths[i + 1]);
            }
            assert forall|i: int| 0 <= i < ps.len() && (#[trigger] ps[i]).len() == 0 implies ls[i].len() == 0 by {
                assert(ps[i] == paths[i] && ls[i] == lines[i]);
            }
        }
        lemma_fold_separate(ps, ls);
        let n = paths.len() - 2;
        assert(ps.last() == paths[n] && ls.last() == lines[n]);
        assert(paths[n] != paths[n + 1]);
        assert(ps.drop_last() =~= paths.drop_last().drop_last());
        assert(ls.drop_last() =~= lines.drop_last().drop_last());
        if ps.last().len() == 0 {
            assert(ls.last().len() == 0);
            assert(ls.last() + lines.last() =~= lines.last());
        }
    }
}

/// When no two consecutive files share a path and files with an empty path
/// have no lines, each file with lines gets a group of its own, with its path
/// and its lines, in file order.
pub proof fn lemma_blame_one_group_per_file(paths: Seq<Seq<char>>, lines: Seq<Seq<usize>>)
    requires
        paths.len() == lines.len(),
        groups_separate(paths, lines),
    ensures
        blame_groups(paths, lines) == files_with_lines(paths, lines),
{
    if paths.len() > 0 {
        lemma_fold_separate(paths, lines);
    }
}


proof fn lemma_lines_in_hunk_sound(h: BlameHunk, findings: Seq<FileFinding>, x: usize)
    requires
        lines_in_hunk(h, findings).contains(x),
    ensures
        exists|j: int| 0 <= j < findings.len() && hunk_holds(h, (#[trigger] findings[j]).line)
            && x == findings[j].line as usize,
    decreases findings.len(),
{
    let fs = findings.drop_last();
    let rest = lines_in_hunk(h, fs);
    let n = findings.len() - 1;
    if hunk_holds(h, findings.last().line) && x == findings.last().line as usize {
        assert(findings[n] == findings.last());
    } else {
        if hunk_holds(h, findings.last().line) {
            let pushed = rest.push(findings.last().line as usize);
            let i = choose|i: int| 0 <= i < pushed.len() && #[trigger] pushed[i] == x;
            assert(i < rest.len());
            assert(rest[i] == x);
        }
        assert(rest.contains(x));
        lemma_lines_in_hunk_sound(h, fs, x);
        let j = choose|j: int| 0 <= j < fs.len() && hunk_holds(h, (#[trigger] fs[j]).line)
            && x == fs[j].line as usize;
        assert(findings[j] == fs[j]);
    }
}

/// Every line blamed on `user` is the line of one of the findings and lies
/// in a hunk that `user` authored.
pub proof fn lemma_user_lines_sound(user: Seq<char>, hunks: Seq<BlameHunk>, findings: Seq<FileFinding>, x: usize)
    requires
        user_lines(user, hunks, findings).contains(x),
    ensures
        exists|k: int, j: int|
            0 <= k < hunks.len() && 0 <= j < findings.len() && (#[trigger] hunks[k]).author@ == user
                && hunk_holds(hunks[k], (#[trigger] findings[j]).line) && x == findings[j].line as usize,
    decreases hunks.len(),
{
    let hs = hunks.drop_last();
    let rest = user_lines(user, hs, findings);
    let n = hunks.len() - 1;
    let i = choose|i: int| 0 <= i < user_lines(user, hunks, findings).len()
        && user_lines(user, hunks, findings)[i] == x;
    if hunks.last().author@ == user && i >= rest.len() {
        let own = lines_in_hunk(hunks.last(), findings);
        assert(own[i - rest.len()] == x);
        lemma_lines_in_hunk_sound(hunks.last(), findings, x);
        let j = choose|j: int| 0 <= j < findings.len() && hunk_holds(hunks.last(), (#[trigger] findings[j]).line)
            && x == findings[j].line as usize;
        assert(hunks[n] == hunks.last());
    } else {
        assert(rest[i] == x);
        lemma_user_lines_sound(user, hs, findings, x);
        let (k, j) = choose|k: int, j: int|
            0 <= k < hs.len() && 0 <= j < findings.len() && (#[trigger] hs[k]).author@ == user
                && hunk_holds(hs[k], (#[trigger] findings[j]).line) && x == findings[j].line as usize;
        assert(hunks[k] == hs[k]);
    }
}


proof fn lemma_lines_in_hunk_complete(h: BlameHunk, findings: Seq<FileFinding>, j: int)
    requires
        0 <= j < findings.len(),
        hunk_holds(h, findings[j].line),
    ensures
        lines_in_hunk(h, findings).contains(findings[j].line as usize),
    decreases findings.len(),
{
    let fs = findings.drop_last();
    let rest = lines_in_hunk(h, fs);
    let x = findings[j].line as usize;
    if j == findings.len() - 1 {
        let all = rest.push(x);
        assert(all[rest.len() as int] == x);
    } else {
        assert(fs[j] == findings[j]);
        lemma_lines_in_hunk_complete(h, fs, j);
        let i = choose|i: int| 0 <= i < rest.len() && rest[i] == x;
        if hunk_holds(h, findings.last().line) {
            assert(rest.push(findings.last().line as usize)[i] == x);
        }
    }
}

/// Every finding that lies in a hunk authored by `user` is blamed on `user`.
pub proof fn lemma_user_lines_complete(user: Seq<char>, hunks: Seq<BlameHunk>, findings: Seq<FileFinding>, k: int, j: int)
    requires
        0 <= k < hunks.len(),
        0 <= j < findings.len(),
        hunks[k].author@ == user,
        hunk_holds(hunks[k], findings[j].line),
    ensures
        user_lines(user, hunks, findings).contains(findings[j].line as usize),
    decreases hunks.len(),
{
    let hs = hunks.drop_last();
    let rest = user_lines(user, hs, findings);
    let x = findings[j].line as usize;
    if k == hunks.len() - 1 {
        assert(hunks.last() == hunks[k]);
        lemma_lines_in_hunk_complete(hunks[k], findings, j);
        let own = lines_in_hunk(hunks[k], findings);
        let i = choose|i: int| 0 <= i < own.len() && own[i] == x;
        assert((rest + own)[rest.len() + i] == x);
    } else {
        assert(hs[k] == hunks[k]);
        lemma_user_lines_complete(user, hs, findings, k, j);
        let i = choose|i: int| 0 <= i < rest.len() && rest[i] == x;
        if hunks.last().author@ == user {
            assert((rest + lines_in_hunk(hunks.last(), findings))[i] == x);
        }
    }
}

/// No two files share a path.
pub open spec fn paths_distinct(paths: Seq<Seq<char>>) -> bool {
    forall|i: int, j: int| 0 <= i < j < paths.len() ==> #[trigger] paths[i] != #[trigger] paths[j]
}

/// A file with an empty path has no lines.
pub open spec fn empty_paths_have_no_lines(paths: Seq<Seq<char>>, lines: Seq<Seq<usize>>) -> bool {
    forall|i: int| 0 <= i < paths.len() && (#[trigger] paths[i]).len() == 0 ==> lines[i].len() == 0
}

proof fn lemma_distinct_separate(paths: Seq<Seq<char>>, lines: Seq<Seq<usize>>)
    requires
        paths_distinct(paths),
        empty_paths_have_no_lines(paths, lines),
    ensures
        groups_separate(paths, lines),
{
    assert forall|i: int| 0 <= i < paths.len() - 1 implies #[trigger] paths[i] != paths[i + 1] by {
        assert(paths[i] != paths[i + 1]);
    }
}

proof fn lemma_distinct_remove(paths: Seq<Seq<char>>, lines: Seq<Seq<usize>>, k: int)
    requires
        paths.len() == lines.len(),
        paths_distinct(paths),
        empty_paths_have_no_lines(paths, lines),
        0 <= k < paths.len(),
    ensures
        paths_distinct(paths.remove(k)),
        empty_paths_have_no_lines(paths.remove(k), lines.remove(k)),
{
    let r = paths.remove(k);
    let l = lines.remove(k);
    assert forall|i: int| 0 <= i < r.len() && (#[trigger] r[i]).len() == 0 implies l[i].len() == 0 by {
        if i < k { assert(r[i] == paths[i] && l[i] == lines[i]); } else { assert(r[i] == paths[i + 1] && l[i] == lines[i + 1]); }
    }
    assert forall|i: int, j: int| 0 <= i < j < r.len() implies #[trigger] r[i] != #[trigger] r[j] by {
        let a = if i < k { i } else { i + 1 };
        let b = if j < k { j } else { j + 1 };
        assert(r[i] == paths[a] && r[j] == paths[b]);
        assert(paths[a] != paths[b]);
    }
}

proof fn lemma_files_with_lines_remove(paths: Seq<Seq<char>>, lines: Seq<Seq<usize>>, k: int)
    requires
        paths.len() == lines.len(),
        0 <= k < paths.len(),
        lines[k].len() == 0,
    ensures
        files_with_lines(paths.remove(k), lines.remove(k)) == files_with_lines(paths, lines),
    decreases paths.len(),
{
    let n = paths.len() - 1;
    if k == n {
        assert(paths.remove(k) =~= paths.drop_last());
        assert(lines.remove(k) =~= lines.drop_last());
        assert(lines.last() == lines[k]);
    } else {
        let ps = paths.drop_last();
        let ls = lines.drop_last();
        assert(ls[k] == lines[k]);
        lemma_files_with_lines_remove(ps, ls, k);
        let pr = paths.remove(k);
        let lr = lines.remove(k);
        assert(pr.drop_last() =~= ps.remove(k));
        assert(lr.drop_last() =~= ls.remove(k));
        assert(pr.last() == paths.last());
        assert(lr.last() == lines.last());
    }
}

proof fn lemma_files_with_lines_entries(paths: Seq<Seq<char>>, lines: Seq<Seq<usize>>)
    requires
        paths.len() == lines.len(),
    ensures
        forall|g: int| 0 <= g < files_with_lines(paths, lines).len() ==> exists|j: int|
            0 <= j < paths.len() && (#[trigger] lines[j]).len() > 0
                && #[trigger] files_with_lines(paths, lines)[g] == (paths[j], lines[j]),
    decreases paths.len(),
{
    if paths.len() > 0 {
        let ps = paths.drop_last();
        let ls = lines.drop_last();
        lemma_files_with_lines_entries(ps, ls);
        let rest = files_with_lines(ps, ls);
        let all = files_with_lines(paths, lines);
        assert forall|g: int| 0 <= g < all.len() implies exists|j: int|
            0 <= j < paths.len() && (#[trigger] lines[j]).len() > 0 && #[trigger] all[g] == (paths[j], lines[j]) by {
            if g < rest.len() {
                assert(all[g] == rest[g]);
                let j = choose|j: int| 0 <= j < ps.len() && (#[trigger] ls[j]).len() > 0
                    && #[trigger] rest[g] == (ps[j], ls[j]);
                assert(paths[j] == ps[j] && lines[j] == ls[j]);
                assert(lines[j].len() > 0 && all[g] == (paths[j], lines[j]));
            } else {
                let n = paths.len() - 1;
                assert(lines.last().len() > 0);
                assert(all[g] == (paths.last(), lines.last()));
                assert(paths[n] == paths.last() && lines[n] == lines.last());
                assert(lines[n].len() > 0 && all[g] == (paths[n], lines[n]));
            }
        }
    }
}

/// When no two files share a path and a file with an empty path has no
/// lines, a file without lines (such as one that git does not track) changes
/// nothing: leaving it out gives the same groups, and no group carries its
/// path.
pub proof fn lemma_blame_ignores_file_without_lines(paths: Seq<Seq<char>>, lines: Seq<Seq<usize>>, k: int)
    requires
        paths.len() == lines.len(),
        paths_distinct(paths),
        empty_paths_have_no_lines(paths, lines),
        0 <= k < paths.len(),
        lines[k].len() == 0,
    ensures
        blame_groups(paths.remove(k), lines.remove(k)) == blame_groups(paths, lines),
        forall|g: int| 0 <= g < blame_groups(paths, lines).len()
            ==> (#[trigger] blame_groups(paths, lines)[g]).0 != paths[k],
{
    lemma_distinct_separate(paths, lines);
    lemma_distinct_remove(paths, lines, k);
    lemma_distinct_separate(paths.remove(k), lines.remove(k));
    lemma_blame_one_group_per_file(paths, lines);
    lemma_blame_one_group_per_file(paths.remove(k), lines.remove(k));
    lemma_files_with_lines_remove(paths, lines, k);
    lemma_files_with_lines_entries(paths, lines);
    let all = blame_groups(paths, lines);
    assert forall|g: int| 0 <= g < all.len() implies (#[trigger] all[g]).0 != paths[k] by {
        let j = choose|j: int| 0 <= j < paths.len() && (#[trigger] lines[j]).len() > 0
            && #[trigger] files_with_lines(paths, lines)[g] == (paths[j], lines[j]);
        if j < k {
            assert(paths[j] != paths[k]);
        } else if j > k {
            assert(paths[k] != paths[j]);
        }
    }
}

/// No line lies in two hunks.
pub open spec fn hunks_disjoint(hunks: Seq<BlameHunk>) -> bool {
    forall|k1: int, k2: int, line: u64|
        0 <= k1 < hunks.len() && 0 <= k2 < hunks.len() && k1 != k2
            ==> !(#[trigger] hunk_holds(hunks[k1], line) && #[trigger] hunk_holds(hunks[k2], line))
}

/// Where no line lies in two hunks, no line is blamed on two different users.
pub proof fn lemma_user_lines_disjoint(
    user1: Seq<char>,
    user2: Seq<char>,
    hunks: Seq<BlameHunk>,
    findings: Seq<FileFinding>,
    x: usize,
)
    requires
        user1 != user2,
        hunks_disjoint(hunks),
    ensures
        !(user_lines(user1, hunks, findings).contains(x) && user_lines(user2, hunks, findings).contains(x)),
{
    if user_lines(user1, hunks, findings).contains(x) && user_lines(user2, hunks, findings).contains(x) {
        lemma_user_lines_sound(user1, hunks, findings, x);
        lemma_user_lines_sound(user2, hunks, findings, x);
        let (k1, j1) = choose|k: int, j: int|
            0 <= k < hunks.len() && 0 <= j < findings.len() && (#[trigger] hunks[k]).author@ == user1
                && hunk_holds(hunks[k], (#[trigger] findings[j]).line) && x == findings[j].line as usize;
        let (k2, j2) = choose|k: int, j: int|
            0 <= k < hunks.len() && 0 <= j < findings.len() && (#[trigger] hunks[k]).author@ == user2
                && hunk_holds(hunks[k], (#[trigger] findings[j]).line) && x == findings[j].line as usize;
        assert(hunk_holds(hunks[k2], findings[j1].line));
        assert(k1 != k2);
        assert(!(hunk_holds(hunks[k1], findings[j1].line) && hunk_holds(hunks[k2], findings[j1].line)));
    }
}

/// Over all users, the blamed lines of a file are exactly the lines of its
/// findings that lie in one of its hunks.
pub proof fn lemma_user_lines_union(hunks: Seq<BlameHunk>, findings: Seq<FileFinding>, x: usize)
    ensures
        (exists|user: Seq<char>| #[trigger] user_lines(user, hunks, findings).contains(x)) <==> (exists|k: int, j: int|
            0 <= k < hunks.len() && 0 <= j < findings.len()
                && hunk_holds(#[trigger] hunks[k], (#[trigger] findings[j]).line) && x == findings[j].line as usize),
{
    if exists|user: Seq<char>| #[trigger] user_lines(user, hunks, findings).contains(x) {
        let user = choose|user: Seq<char>| #[trigger] user_lines(user, hunks, findings).contains(x);
        lemma_user_lines_sound(user, hunks, findings, x);
    }
    if exists|k: int, j: int| 0 <= k < hunks.len() && 0 <= j < findings.len()
        && hunk_holds(#[trigger] hunks[k], (#[trigger] findings[j]).line) && x == findings[j].line as usize {
        let (k, j) = choose|k: int, j: int| 0 <= k < hunks.len() && 0 <= j < findings.len()
            && hunk_holds(#[trigger] hunks[k], (#[trigger] findings[j]).line) && x == findings[j].line as usize;
        lemma_user_lines_complete(hunks[k].author@, hunks, findings, k, j);
        assert(user_lines(hunks[k].author@, hunks, findings).contains(x));
    }
}

proof fn lemma_concat_lines_contains(groups: Seq<Seq<usize>>, i: int, x: usize)
    requires
        0 <= i < groups.len(),
        groups[i].contains(x),
    ensures
        concat_lines(groups).contains(x),
    decreases groups.len(),
{
    let gs = groups.drop_last();
    let n = groups.len() - 1;
    let m = choose|m: int| 0 <= m < groups[i].len() && groups[i][m] == x;
    if i == n {
        assert(groups.last() == groups[i]);
        assert((concat_lines(gs) + groups.last())[concat_lines(gs).len() + m] == x);
    } else {
        assert(gs[i] == groups[i]);
        lemma_concat_lines_contains(gs, i, x);
        let p = choose|p: int| 0 <= p < concat_lines(gs).len() && concat_lines(gs)[p] == x;
        assert((concat_lines(gs) + groups.last())[p] == x);
    }
}

proof fn lemma_concat_lines_member(groups: Seq<Seq<usize>>, x: usize)
    requires
        concat_lines(groups).contains(x),
    ensures
        exists|i: int| 0 <= i < groups.len() && (#[trigger] groups[i]).contains(x),
    decreases groups.len(),
{
    let gs = groups.drop_last();
    let n = groups.len() - 1;
    let all = concat_lines(groups);
    let p = choose|p: int| 0 <= p < all.len() && all[p] == x;
    if p < concat_lines(gs).len() {
        assert(concat_lines(gs)[p] == x);
        lemma_concat_lines_member(gs, x);
        let i = choose|i: int| 0 <= i < gs.len() && (#[trigger] gs[i]).contains(x);
        assert(groups[i] == gs[i]);
    } else {
        assert(groups.last()[p - concat_lines(gs).len()] == x);
        assert(groups[n] == groups.last());
    }
}

/// Blaming misses no line of the user: for every search result whose file
/// was blamed, every finding on a line `l` with `s <= l <= s + n - 1` for a
/// hunk of that file starting at `s` with `n` lines, authored by `user`, is
/// among the blamed lines.
pub proof fn lemma_blame_complete(
    user: Seq<char>,
    paths: Seq<Seq<char>>,
    files: Seq<SearchResult>,
    file_hunks: Seq<Option<Vec<BlameHunk>>>,
    i: int,
    k: int,
    j: int,
)
    requires
        paths.len() == files.len(),
        files.len() == file_hunks.len(),
        0 <= i < files.len(),
        file_hunks[i] is Some,
        0 <= k < file_hunks[i]->0.len(),
        0 <= j < files[i].findings.len(),
        file_hunks[i]->0[k].author@ == user,
        file_hunks[i]->0[k].start_line <= (files[i].findings[j].line as usize),
        (files[i].findings[j].line as usize) <= file_hunks[i]->0[k].start_line + file_hunks[i]->0[k].lines_in_hunk - 1,
    ensures
        concat_lines(group_line_lists(blame_groups(paths, blame_lines(user, files, file_hunks)))).contains(
            files[i].findings[j].line as usize,
        ),
{
    let lines = blame_lines(user, files, file_hunks);
    let hunks = file_hunks[i]->0@;
    let findings = files[i].findings@;
    assert(hunks[k] == file_hunks[i]->0[k]);
    assert(findings[j] == files[i].findings[j]);
    lemma_user_lines_complete(user, hunks, findings, k, j);
    assert(lines[i] == file_lines(user, file_hunks[i], findings));
    lemma_concat_lines_contains(lines, i, files[i].findings[j].line as usize);
    lemma_blame_keeps_every_line(paths, lines);
}

/// With distinct, non-empty paths, the entry of each blamed file holds every
/// finding on a line `l` with `s <= l <= s + n - 1` for a hunk of that file
/// starting at `s` with `n` lines, authored by `user`.
pub proof fn lemma_blame_entry_complete(
    user: Seq<char>,
    paths: Seq<Seq<char>>,
    files: Seq<SearchResult>,
    file_hunks: Seq<Option<Vec<BlameHunk>>>,
    i: int,
    k: int,
    j: int,
)
    requires
        paths.len() == files.len(),
        files.len() == file_hunks.len(),
        paths_distinct(paths),
        forall|p: int| 0 <= p < paths.len() ==> (#[trigger] paths[p]).len() > 0,
        0 <= i < files.len(),
        file_hunks[i] is Some,
        0 <= k < file_hunks[i]->0.len(),
        0 <= j < files[i].findings.len(),
        file_hunks[i]->0[k].author@ == user,
        file_hunks[i]->0[k].start_line <= (files[i].findings[j].line as usize),
        (files[i].findings[j].line as usize) <= file_hunks[i]->0[k].start_line + file_hunks[i]->0[k].lines_in_hunk - 1,
    ensures
        exists|g: int| 0 <= g < blame_groups(paths, blame_lines(user, files, file_hunks)).len()
            && (#[trigger] blame_groups(paths, blame_lines(user, files, file_hunks))[g]).0 == paths[i]
            && blame_groups(paths, blame_lines(user, files, file_hunks))[g].1.contains(
                files[i].findings[j].line as usize,
            ),
{
    let lines = blame_lines(user, files, file_hunks);
    let hunks = file_hunks[i]->0@;
    let findings = files[i].findings@;
    let x = files[i].findings[j].line as usize;
    assert(hunks[k] == file_hunks[i]->0[k]);
    assert(findings[j] == files[i].findings[j]);
    lemma_user_lines_complete(user, hunks, findings, k, j);
    assert(lines[i] == file_lines(user, file_hunks[i], findings));
    assert(lines[i].contains(x));
    assert(groups_separate(paths, lines)) by {
        assert forall|p: int| 0 <= p < paths.len() - 1 implies #[trigger] paths[p] != paths[p + 1] by {
            assert(paths[p] != paths[p + 1]);
        }
    }
    lemma_blame_one_group_per_file(paths, lines);
    lemma_files_with_lines_has_entry(paths, lines, i);
}

proof fn lemma_files_with_lines_has_entry(paths: Seq<Seq<char>>, lines: Seq<Seq<usize>>, i: int)
    requires
        paths.len() == lines.len(),
        0 <= i < paths.len(),
        lines[i].len() > 0,
    ensures
        exists|g: int| 0 <= g < files_with_lines(paths, lines).len()
            && #[trigger] files_with_lines(paths, lines)[g] == (paths[i], lines[i]),
    decreases paths.len(),
{
    let ps = paths.drop_last();
    let ls = lines.drop_last();
    let n = paths.len() - 1;
    let rest = files_with_lines(ps, ls);
    if i == n {
        assert(paths.last() == paths[i] && lines.last() == lines[i]);
        assert(files_with_lines(paths, lines)[rest.len() as int] == (paths[i], lines[i]));
    } else {
        assert(ps[i] == paths[i] && ls[i] == lines[i]);
        lemma_files_with_lines_has_entry(ps, ls, i);
        let g = choose|g: int| 0 <= g < rest.len() && #[trigger] rest[g] == (ps[i], ls[i]);
        assert(files_with_lines(paths, lines)[g] == rest[g]);
    }
}

/// Blaming adds no line: every blamed line is the line of a finding of one of
/// the files, on a line `l` with `s <= l <= s + n - 1` for a hunk of that
/// file starting at `s` with `n` lines, authored by `user`.
pub proof fn lemma_blame_sound(
    user: Seq<char>,
    paths: Seq<Seq<char>>,
    files: Seq<SearchResult>,
    file_hunks: Seq<Option<Vec<BlameHunk>>>,
    x: usize,
)
    requires
        paths.len() == files.len(),
        files.len() == file_hunks.len(),
        concat_lines(group_line_lists(blame_groups(paths, blame_lines(user, files, file_hunks)))).contains(x),
    ensures
        exists|i: int, k: int, j: int|
            0 <= i < files.len() && file_hunks[i] is Some && 0 <= k < file_hunks[i]->0.len()
                && 0 <= j < files[i].findings.len()
                && (#[trigger] file_hunks[i]->0[k]).author@ == user
                && file_hunks[i]->0[k].start_line <= ((#[trigger] files[i].findings[j]).line as usize)
                && (files[i].findings[j].line as usize) <= file_hunks[i]->0[k].start_line
                    + file_hunks[i]->0[k].lines_in_hunk - 1
                && x == files[i].findings[j].line as usize,
{
    let lines = blame_lines(user, files, file_hunks);
    lemma_blame_keeps_every_line(paths, lines);
    lemma_concat_lines_member(lines, x);
    let i = choose|i: int| 0 <= i < lines.len() && (#[trigger] lines[i]).contains(x);
    assert(lines[i] == file_lines(user, file_hunks[i], files[i].findings@));
    if file_hunks[i] is None {
        assert(lines[i].len() == 0);
    }
    let hunks = file_hunks[i]->0@;
    let findings = files[i].findings@;
    lemma_user_lines_sound(user, hunks, findings, x);
    let (k, j) = choose|k: int, j: int|
        0 <= k < hunks.len() && 0 <= j < findings.len() && (#[trigger] hunks[k]).author@ == user
            && hunk_holds(hunks[k], (#[trigger] findings[j]).line) && x == findings[j].line as usize;
    assert(hunks[k] == file_hunks[i]->0[k]);
    assert(findings[j] == files[i].findings[j]);
}

/// Whether `author` is the user that blaming keeps: `user_to_blame` when
/// given, else the configured `signature_name`.
pub open spec fn is_blamed_author(author: Seq<char>, user_to_blame: Option<String>, signature_name: Option<String>) -> bool {
    ||| user_to_blame matches Some(u) && author == u@
    ||| user_to_blame is None && (signature_name matches Some(n) && author == n@)
}

/// `blame` misses no line: every finding on a line `l` with
/// `s <= l <= s + n - 1` for a hunk of its file starting at `s` with `n`
/// lines, authored by the user asked for (else the configured one), is among
/// the blamed lines.
pub proof fn lemma_blame_result_complete(
    repo: &RepoBlame,
    user_to_blame: Option<String>,
    files: Seq<SearchResult>,
    i: int,
    k: int,
    j: int,
)
    requires
        files.len() == repo.file_hunks.len(),
        0 <= i < files.len(),
        repo.file_hunks[i] is Some,
        0 <= k < repo.file_hunks[i]->0.len(),
        0 <= j < files[i].findings.len(),
        is_blamed_author(repo.file_hunks[i]->0[k].author@, user_to_blame, repo.signature_name),
        repo.file_hunks[i]->0[k].start_line <= (files[i].findings[j].line as usize),
        (files[i].findings[j].line as usize) <= repo.file_hunks[i]->0[k].start_line
            + repo.file_hunks[i]->0[k].lines_in_hunk - 1,
    ensures
        concat_lines(group_line_lists(blame_spec(repo, user_to_blame, files))).contains(
            files[i].findings[j].line as usize,
        ),
{
    let user = resolved_user(user_to_blame, repo.signature_name);
    lemma_blame_complete(user, blame_paths(repo.root_dir@, files), files, repo.file_hunks@, i, k, j);
}

/// `blame` adds no line: every blamed line is the line of a finding on a line
/// `l` with `s <= l <= s + n - 1` for a hunk of its file starting at `s` with
/// `n` lines, authored by the user asked for (else the configured one).
pub proof fn lemma_blame_result_sound(
    repo: &RepoBlame,
    user_to_blame: Option<String>,
    files: Seq<SearchResult>,
    x: usize,
)
    requires
        files.len() == repo.file_hunks.len(),
        user_to_blame is Some || repo.signature_name is Some,
        concat_lines(group_line_lists(blame_spec(repo, user_to_blame, files))).contains(x),
    ensures
        exists|i: int, k: int, j: int|
            0 <= i < files.len() && repo.file_hunks[i] is Some && 0 <= k < repo.file_hunks[i]->0.len()
                && 0 <= j < files[i].findings.len()
                && is_blamed_author((#[trigger] repo.file_hunks[i]->0[k]).author@, user_to_blame, repo.signature_name)
                && repo.file_hunks[i]->0[k].start_line <= ((#[trigger] files[i].findings[j]).line as usize)
                && (files[i].findings[j].line as usize) <= repo.file_hunks[i]->0[k].start_line
                    + repo.file_hunks[i]->0[k].lines_in_hunk - 1
                && x == files[i].findings[j].line as usize,
{
    let user = resolved_user(user_to_blame, repo.signature_name);
    lemma_blame_sound(user, blame_paths(repo.root_dir@, files), files, repo.file_hunks@, x);
    let (i, k, j) = choose|i: int, k: int, j: int|
        0 <= i < files.len() && repo.file_hunks@[i] is Some && 0 <= k < repo.file_hunks@[i]->0.len()
            && 0 <= j < files[i].findings.len()
            && (#[trigger] repo.file_hunks@[i]->0[k]).author@ == user
            && repo.file_hunks@[i]->0[k].start_line <= ((#[trigger] files[i].findings[j]).line as usize)
            && (files[i].findings[j].line as usize) <= repo.file_hunks@[i]->0[k].start_line
                + repo.file_hunks@[i]->0[k].lines_in_hunk - 1
            && x == files[i].findings[j].line as usize;
    assert(is_blamed_author(repo.file_hunks[i]->0[k].author@, user_to_blame, repo.signature_name));
}

/// The path that blaming gives each result is its path relative to the root,
/// wherever it has one.
pub proof fn lemma_blame_paths_relative(root_dir: Seq<char>, files: Seq<SearchResult>, i: int)
    requires
        0 <= i < files.len(),
        relative_path_of(files[i].filepath@, root_dir) is Some,
    ensures
        relative_path_of(files[i].filepath@, root_dir) == Some(blame_paths(root_dir, files)[i]),
{
}

} // verus!
