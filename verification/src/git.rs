use vstd::prelude::*;

use crate::search::{FileFinding, SearchResult};
use crate::paths::{plainly_relative, relative_path_of, repo_relative_path, strings_view};
use crate::ui::{ProgressRenderer, RenderEvent};

verus! {

/// The message shown when blaming is over.
pub const END_BLAME_MESSAGE: &'static str = "Done with blaming";

/// The lines of one file that the blamed person last changed.
#[derive(Clone)]
pub struct BlameFileResult {
    /// Path to the file, relative to the repository root.
    pub file: String,
    /// Line numbers in the file where the phrase is found.
    pub line_numbers: Vec<usize>,
}

impl View for BlameFileResult {
    type V = (Seq<char>, Seq<usize>);

    open spec fn view(&self) -> (Seq<char>, Seq<usize>) {
        (self.file@, self.line_numbers@)
    }
}

impl BlameFileResult {
    /// Adds a line number where the phrase is found.
    pub fn add_line_number(&mut self, line_number: usize)
        ensures
            final(self).file == old(self).file,
            final(self).line_numbers@ == old(self).line_numbers@.push(line_number),
    {
        self.line_numbers.push(line_number);
    }
}

/// One hunk of a file's blame: `lines_in_hunk` lines, starting at line
/// `start_line` of the file as it is now, last changed by `author`.
pub struct BlameHunk {
    /// The first line of the hunk (lines count from 1).
    pub start_line: usize,
    /// The number of lines in the hunk.
    pub lines_in_hunk: usize,
    /// The name of the author of the hunk's final commit.
    pub author: String,
}

/// What blaming reads from a repository.
pub struct RepoBlame {
    /// The repository's working directory, canonical.
    pub root_dir: String,
    /// The user name configured for the repository, if it is valid text.
    pub signature_name: Option<String>,
    /// For each search result, in order, the blame of its file, or `None`
    /// where git does not track the file.
    pub file_hunks: Vec<Option<Vec<BlameHunk>>>,
}

/// Whether `line` lies in the hunk `h`.
pub open spec fn hunk_holds(h: BlameHunk, line: u64) -> bool {
    h.start_line <= (line as usize) && (line as usize) <= h.start_line + h.lines_in_hunk - 1
}

/// The hunk's last line can be computed: neither `start_line + lines_in_hunk`
/// nor that sum less one leaves `usize`.
pub open spec fn hunk_in_range(h: BlameHunk) -> bool {
    1 <= h.start_line + h.lines_in_hunk <= usize::MAX
}

/// The line numbers of `findings` that lie in the hunk `h`, in finding order.
pub open spec fn lines_in_hunk(h: BlameHunk, findings: Seq<FileFinding>) -> Seq<usize>
    decreases findings.len(),
{
    if findings.len() == 0 {
        seq![]
    } else {
        let rest = lines_in_hunk(h, findings.drop_last());
        if hunk_holds(h, findings.last().line) {
            rest.push(findings.last().line as usize)
        } else {
            rest
        }
    }
}

/// The line numbers of `findings` that lie in hunks authored by `user`:
/// hunk after hunk, and within a hunk in finding order.
pub open spec fn user_lines(user: Seq<char>, hunks: Seq<BlameHunk>, findings: Seq<FileFinding>) -> Seq<usize>
    decreases hunks.len(),
{
    if hunks.len() == 0 {
        seq![]
    } else {
        let rest = user_lines(user, hunks.drop_last(), findings);
        if hunks.last().author@ == user {
            rest + lines_in_hunk(hunks.last(), findings)
        } else {
            rest
        }
    }
}

/// The lines of one file attributed to `user`; none for an untracked file.
pub open spec fn file_lines(user: Seq<char>, hunks: Option<Vec<BlameHunk>>, findings: Seq<FileFinding>) -> Seq<usize> {
    match hunks {
        Some(hs) => user_lines(user, hs@, findings),
        None => seq![],
    }
}

/// The state of blaming between two files: the finished groups, the path of
/// the group in progress and its lines.
pub type GroupState = (Seq<(Seq<char>, Seq<usize>)>, Seq<char>, Seq<usize>);

/// One file enters the grouping: a file with another path than the group in
/// progress closes that group (kept only if it has lines); an empty path of
/// the group in progress closes nothing.
pub open spec fn group_step(state: GroupState, path: Seq<char>, lines: Seq<usize>) -> GroupState {
    let (found, cur, pending) = state;
    if cur.len() > 0 && cur != path {
        let closed = if pending.len() > 0 { found.push((cur, pending)) } else { found };
        (closed, path, lines)
    } else {
        (found, path, pending + lines)
    }
}

/// The grouping state after the first `paths.len()` files.
pub open spec fn group_fold(paths: Seq<Seq<char>>, lines: Seq<Seq<usize>>) -> GroupState
    decreases paths.len(),
{
    if paths.len() == 0 || lines.len() == 0 {
        (seq![], seq![], seq![])
    } else {
        group_step(group_fold(paths.drop_last(), lines.drop_last()), paths.last(), lines.last())
    }
}

/// The groups of blamed lines: files with their lines, where consecutive
/// files of one path share a group and groups without lines are left out.
pub open spec fn blame_groups(paths: Seq<Seq<char>>, lines: Seq<Seq<usize>>) -> Seq<(Seq<char>, Seq<usize>)> {
    let (found, cur, pending) = group_fold(paths, lines);
    if pending.len() > 0 { found.push((cur, pending)) } else { found }
}


/// The user whose lines are kept: the one asked for, else the configured one.
pub open spec fn resolved_user(user_to_blame: Option<String>, signature_name: Option<String>) -> Seq<char> {
    match user_to_blame {
        Some(u) => u@,
        None => signature_name.unwrap()@,
    }
}

/// The path of each search result relative to the root (where it has one).
pub open spec fn blame_paths(root_dir: Seq<char>, files: Seq<SearchResult>) -> Seq<Seq<char>> {
    Seq::new(files.len(), |j: int| relative_path_of(files[j].filepath@, root_dir).unwrap())
}

/// For each search result, its lines attributed to `user`.
pub open spec fn blame_lines(
    user: Seq<char>,
    files: Seq<SearchResult>,
    file_hunks: Seq<Option<Vec<BlameHunk>>>,
) -> Seq<Seq<usize>> {
    Seq::new(files.len(), |j: int| file_lines(user, file_hunks[j], files[j].findings@))
}

/// The view of a list of blame results.
pub open spec fn results_view(v: Seq<BlameFileResult>) -> Seq<(Seq<char>, Seq<usize>)> {
    v.map_values(|b: BlameFileResult| b@)
}

/// Each hunk authored by `user` has a last line that can be computed.
pub open spec fn user_hunks_in_range(user: Seq<char>, file_hunks: Seq<Option<Vec<BlameHunk>>>) -> bool {
    forall|i: int, k: int|
        #![trigger file_hunks[i]->0[k]]
        0 <= i < file_hunks.len() && file_hunks[i] is Some && 0 <= k < file_hunks[i]->0.len()
            && file_hunks[i]->0[k].author@ == user ==> hunk_in_range(file_hunks[i]->0[k])
}

/// Appends to `out` the line numbers of `findings` that lie in `h`.
fn push_lines_in_hunk(h: &BlameHunk, findings: &Vec<FileFinding>, out: &mut Vec<usize>)
    requires
        hunk_in_range(*h),
    ensures
        final(out)@ == old(out)@ + lines_in_hunk(*h, findings@),
{
    let chunk_end = h.start_line + h.lines_in_hunk - 1;
    let chunk_start = h.start_line;
    let ghost start = out@;
    let mut j: usize = 0;
    while j < findings.len()
        invariant
            j <= findings.len(),
            chunk_end == h.start_line + h.lines_in_hunk - 1,
            chunk_start == h.start_line,
            out@ == start + lines_in_hunk(*h, findings@.take(j as int)),
        decreases findings.len() - j,
    {
        assert(findings@.take(j + 1).drop_last() =~= findings@.take(j as int));
        let line = #[verifier::truncate] (findings[j].line as usize);
        if chunk_start <= line && line <= chunk_end {
            out.push(line);
        }
        j += 1;
    }
    assert(findings@.take(findings.len() as int) =~= findings@);
}

/// Appends to `out` the line numbers of `findings` in hunks authored by `user`.
fn push_user_lines(user: &String, hunks: &Vec<BlameHunk>, findings: &Vec<FileFinding>, out: &mut Vec<usize>)
    requires
        forall|k: int| 0 <= k < hunks.len() && (#[trigger] hunks[k]).author@ == user@ ==> hunk_in_range(hunks[k]),
    ensures
        final(out)@ == old(out)@ + user_lines(user@, hunks@, findings@),
{
    let ghost start = out@;
    let mut k: usize = 0;
    while k < hunks.len()
        invariant
            k <= hunks.len(),
            forall|k: int| 0 <= k < hunks.len() && (#[trigger] hunks[k]).author@ == user@ ==> hunk_in_range(hunks[k]),
            out@ == start + user_lines(user@, hunks@.take(k as int), findings@),
        decreases hunks.len() - k,
    {
        assert(hunks@.take(k + 1).drop_last() =~= hunks@.take(k as int));
        if *user == hunks[k].author {
            push_lines_in_hunk(&hunks[k], findings, out);
            assert(out@ =~= start + user_lines(user@, hunks@.take(k + 1), findings@));
        }
        k += 1;
    }
    assert(hunks@.take(hunks.len() as int) =~= hunks@);
}


/// The paths of a list of search results.
pub open spec fn filepaths_view(files: Seq<SearchResult>) -> Seq<Seq<char>> {
    files.map_values(|f: SearchResult| f.filepath@)
}

/// The path of each search result relative to the root `root_dir`; `None`
/// when an absolute path does not lie under the root. Results whose paths
/// are plainly relative keep them.
pub fn relative_paths(root_dir: &str, files: &Vec<SearchResult>) -> (r: Option<Vec<String>>)
    ensures
        r is None <==> exists|i: int| 0 <= i < files.len()
            && (#[trigger] relative_path_of(files[i].filepath@, root_dir@)) is None,
        r matches Some(v) ==> strings_view(v@) == blame_paths(root_dir@, files@),
        (forall|i: int| 0 <= i < files.len() ==> plainly_relative(#[trigger] files[i].filepath@)) ==> {
            &&& r is Some
            &&& blame_paths(root_dir@, files@) == filepaths_view(files@)
        },
{
    let ghost paths = blame_paths(root_dir@, files@);
    let mut out: Vec<String> = Vec::new();
    let mut i: usize = 0;
    while i < files.len()
        invariant
            i <= files.len(),
            paths == blame_paths(root_dir@, files@),
            forall|j: int| 0 <= j < i ==> (#[trigger] relative_path_of(files[j].filepath@, root_dir@)) is Some,
            forall|j: int| 0 <= j < i && plainly_relative(files[j].filepath@) ==> #[trigger] paths[j] == files[j].filepath@,
            strings_view(out@) == paths.take(i as int),
        decreases files.len() - i,
    {
        match repo_relative_path(files[i].filepath.as_str(), root_dir) {
            Some(p) => {
                assert(paths[i as int] == p@);
                let ghost before = strings_view(out@);
                out.push(p);
                assert(strings_view(out@) =~= before.push(p@));
                assert(paths.take(i + 1) =~= paths.take(i as int).push(p@));
            },
            None => {
                return None;
            },
        }
        i += 1;
    }
    assert(paths.take(files.len() as int) =~= paths);
    proof {
        if forall|i: int| 0 <= i < files.len() ==> plainly_relative(#[trigger] files[i].filepath@) {
            assert(paths =~= filepaths_view(files@));
        }
    }
    Some(out)
}

/// Groups by file the lines of `files` last changed by `user`, given each
/// result's repository-relative path and its file's blame: consecutive
/// results of one path share an entry; entries without lines are left out.
pub fn group_blamed_lines(
    user: &String,
    paths: &Vec<String>,
    files: &Vec<SearchResult>,
    file_hunks: &Vec<Option<Vec<BlameHunk>>>,
) -> (r: Vec<BlameFileResult>)
    requires
        paths.len() == files.len(),
        files.len() == file_hunks.len(),
        user_hunks_in_range(user@, file_hunks@),
    ensures
        results_view(r@) == blame_groups(strings_view(paths@), blame_lines(user@, files@, file_hunks@)),
{
    let ghost path_views = strings_view(paths@);
    let ghost lines = blame_lines(user@, files@, file_hunks@);
    let mut found: Vec<BlameFileResult> = Vec::new();
    let mut cur_file = String::new();
    let mut cur_lines: Vec<usize> = Vec::new();
    let mut i: usize = 0;
    while i < files.len()
        invariant
            i <= files.len(),
            paths.len() == files.len(),
            files.len() == file_hunks.len(),
            user_hunks_in_range(user@, file_hunks@),
            path_views == strings_view(paths@),
            lines == blame_lines(user@, files@, file_hunks@),
            (results_view(found@), cur_file@, cur_lines@) == group_fold(path_views.take(i as int), lines.take(i as int)),
        decreases files.len() - i,
    {
        let file_path = paths[i].clone();
        let ghost state = (results_view(found@), cur_file@, cur_lines@);
        assert(path_views.take(i + 1).drop_last() =~= path_views.take(i as int));
        assert(lines.take(i + 1).drop_last() =~= lines.take(i as int));
        assert(path_views[i as int] == file_path@);
        if !cur_file.as_str().is_empty() && cur_file != file_path {
            if cur_lines.len() > 0 {
                let done = BlameFileResult { file: cur_file, line_numbers: cur_lines };
                found.push(done);
                assert(results_view(found@) =~= state.0.push((state.1, state.2)));
            }
            cur_lines = Vec::new();
        }
        cur_file = file_path;
        let ghost before = cur_lines@;
        match &file_hunks[i] {
            Some(hunks) => {
                assert forall|k: int| 0 <= k < hunks.len() && (#[trigger] hunks[k]).author@ == user@
                    implies hunk_in_range(hunks[k]) by {
                    assert(file_hunks@[i as int]->0[k] == hunks[k]);
                }
                push_user_lines(user, hunks, &files[i].findings, &mut cur_lines);
            },
            None => {},
        }
        assert(cur_lines@ =~= before + lines[i as int]);
        assert(group_step(state, path_views[i as int], lines[i as int]).2 =~= cur_lines@);
        i += 1;
    }
    assert(path_views.take(files.len() as int) =~= path_views);
    assert(lines.take(files.len() as int) =~= lines);
    if cur_lines.len() > 0 {
        let ghost found_before = results_view(found@);
        found.push(BlameFileResult { file: cur_file, line_numbers: cur_lines });
        assert(results_view(found@) =~= found_before.push((cur_file@, cur_lines@)));
    }
    found
}

/// The user whose lines are kept: `user_to_blame`, else the configured
/// `signature_name`; `None` when there is neither.
pub fn blamed_user(user_to_blame: &Option<String>, signature_name: &Option<String>) -> (r: Option<String>)
    ensures
        r is Some <==> (user_to_blame is Some || signature_name is Some),
        r matches Some(u) ==> u@ == resolved_user(*user_to_blame, *signature_name),
{
    match user_to_blame {
        Some(user) => Some(user.clone()),
        None => match signature_name {
            Some(name) => Some(name.clone()),
            None => None,
        },
    }
}

/// Every result's path lies under the root, if it is absolute.
pub open spec fn paths_under_root(root_dir: Seq<char>, files: Seq<SearchResult>) -> bool {
    forall|i: int| 0 <= i < files.len() ==> (#[trigger] relative_path_of(files[i].filepath@, root_dir)) is Some
}

/// What the blame of `files` in `repo` is owed: one blame per result, a user
/// to blame, and a computable last line for each of that user's hunks.
pub open spec fn blame_inputs_fit(repo: &RepoBlame, user_to_blame: Option<String>, files: Seq<SearchResult>) -> bool {
    &&& files.len() == repo.file_hunks.len()
    &&& (user_to_blame is Some || repo.signature_name is Some)
    &&& user_hunks_in_range(resolved_user(user_to_blame, repo.signature_name), repo.file_hunks@)
}

/// What `blame` gives for `files` in `repo`.
pub open spec fn blame_spec(repo: &RepoBlame, user_to_blame: Option<String>, files: Seq<SearchResult>) -> Seq<(Seq<char>, Seq<usize>)> {
    blame_groups(
        blame_paths(repo.root_dir@, files),
        blame_lines(resolved_user(user_to_blame, repo.signature_name), files, repo.file_hunks@),
    )
}

/// Blames the lines of the search results `files` in the repository read
/// into `repo`: keeps, file by file, the lines that `user_to_blame` (else
/// the user configured for the repository) last changed.
///
/// Each result's path is taken relative to the repository root; consecutive
/// results of one path share an entry; entries without lines are left out.
pub fn blame(
    repo: &RepoBlame,
    user_to_blame: Option<String>,
    files: &mut Vec<SearchResult>,
) -> (r: Vec<BlameFileResult>)
    requires
        blame_inputs_fit(repo, user_to_blame, old(files)@),
        paths_under_root(repo.root_dir@, old(files)@),
    ensures
        final(files)@ == old(files)@,
        results_view(r@) == blame_spec(repo, user_to_blame, old(files)@),
{
    let user: String = match blamed_user(&user_to_blame, &repo.signature_name) {
        Some(user) => user,
        None => {
            proof {
                assert(false);
            }
            String::new()
        },
    };
    let paths = match relative_paths(repo.root_dir.as_str(), files) {
        Some(paths) => paths,
        None => {
            proof {
                assert(false);
            }
            Vec::new()
        },
    };
    assert(strings_view(paths@).len() == paths@.len());
    group_blamed_lines(&user, &paths, files, &repo.file_hunks)
}

/// `blame`, with `renderer` started before and ended after it with the
/// message "Done with blaming".
pub fn blame_with_custom_ui<R: ProgressRenderer>(
    repo: &RepoBlame,
    user_to_blame: Option<String>,
    files: &mut Vec<SearchResult>,
    renderer: &mut R,
) -> (r: Vec<BlameFileResult>)
    requires
        blame_inputs_fit(repo, user_to_blame, old(files)@),
        paths_under_root(repo.root_dir@, old(files)@),
    ensures
        final(files)@ == old(files)@,
        results_view(r@) == blame_spec(repo, user_to_blame, old(files)@),
        R::keeps_events() ==> final(renderer).events() == old(renderer).events().push(RenderEvent::Start).push(
            RenderEvent::End(END_BLAME_MESSAGE@),
        ),
{
    renderer.start();
    let blame_results = blame(repo, user_to_blame, files);
    renderer.end(END_BLAME_MESSAGE.to_string());
    blame_results
}

/// `blame_with_custom_ui` where the results' paths have first been tested:
/// `None`, with the renderer left alone, when a result's absolute path does
/// not lie under the root.
pub fn try_blame_with_custom_ui<R: ProgressRenderer>(
    repo: &RepoBlame,
    user_to_blame: Option<String>,
    files: &mut Vec<SearchResult>,
    renderer: &mut R,
) -> (r: Option<Vec<BlameFileResult>>)
    requires
        blame_inputs_fit(repo, user_to_blame, old(files)@),
    ensures
        final(files)@ == old(files)@,
        r is Some <==> paths_under_root(repo.root_dir@, old(files)@),
        r is None ==> *final(renderer) == *old(renderer),
        r matches Some(v) ==> {
            &&& results_view(v@) == blame_spec(repo, user_to_blame, old(files)@)
            &&& R::keeps_events() ==> final(renderer).events() == old(renderer).events().push(RenderEvent::Start).push(
                RenderEvent::End(END_BLAME_MESSAGE@),
            )
        },
{
    if relative_paths(repo.root_dir.as_str(), files).is_none() {
        return None;
    }
    Some(blame_with_custom_ui(repo, user_to_blame, files, renderer))
}

} // verus!
