use vstd::prelude::*;

use crate::paths::{plainly_relative, relative_path_of, repo_relative_path, strings_view};
use crate::ui::{ProgressRenderer, RenderEvent};

verus! {

/// The message shown when searching is over.
pub const END_SEARCH_MESSAGE: &'static str = "Done with searching";

/// One line of a file that holds the phrase searched for.
#[derive(Debug)]
pub struct FileFinding {
    /// The text being searched for.
    pub phrase: String,
    /// The line number in the file with the `phrase`.
    pub line: u64,
}

/// The findings of the search in one file.
#[derive(Debug)]
pub struct SearchResult {
    /// Path to the file, relative to the git root directory.
    pub filepath: String,
    /// The lines of the file that hold the phrase.
    pub findings: Vec<FileFinding>,
}

/// Findings as plain values: line number and phrase.
pub open spec fn findings_view(findings: Seq<FileFinding>) -> Seq<(u64, Seq<char>)> {
    findings.map_values(|f: FileFinding| (f.line, f.phrase@))
}

/// Search results as plain values: each file's path and its findings.
pub open spec fn search_results_view(results: Seq<SearchResult>) -> Seq<(Seq<char>, Seq<(u64, Seq<char>)>)> {
    results.map_values(|r: SearchResult| (r.filepath@, findings_view(r.findings@)))
}

/// Files to search as plain values: each file's path and its contents.
pub open spec fn files_view(files: Seq<(String, Vec<u8>)>) -> Seq<(Seq<char>, Seq<u8>)> {
    files.map_values(|f: (String, Vec<u8>)| (f.0@, f.1@))
}

/// Lists of line numbers as plain values.
pub open spec fn line_lists_view(found: Seq<Vec<u64>>) -> Seq<Seq<u64>> {
    found.map_values(|v: Vec<u64>| v@)
}

/// Whether `grep_regex::RegexMatcher::new_line_matcher` accepts `pattern`.
pub uninterp spec fn line_pattern_accepted(pattern: Seq<char>) -> bool;

/// The numbers of the lines of `contents` that a line matcher for `pattern`
/// matches, as `grep_searcher` reports them to a `Lossy` sink with a searcher
/// that quits at the first NUL byte, in file order.
pub uninterp spec fn grep_matching_lines(pattern: Seq<char>, contents: Seq<u8>) -> Seq<u64>;

/// Compiles `pattern` with `grep_regex::RegexMatcher::new_line_matcher` and
/// searches `contents` with `grep_searcher::Searcher::search_reader` (binary
/// detection quitting at NUL, matches taken through a `Lossy` sink), keeping
/// the number of each matching line.
///
/// The contract claims that the result is `None` exactly when the pattern is
/// rejected, and otherwise that the line numbers are a function of the
/// pattern and the contents (named `grep_matching_lines`). An error of the
/// search, which reading from memory does not produce, is dropped; the lines
/// found before it are kept.
#[verifier::external_body]
fn grep_lines(pattern: &str, contents: &[u8]) -> (r: Option<Vec<u64>>)
    ensures
        r is Some <==> line_pattern_accepted(pattern@),
        r matches Some(v) ==> v@ == grep_matching_lines(pattern@, contents@),
{
    let matcher = grep::regex::RegexMatcher::new_line_matcher(pattern).ok()?;
    let mut searcher = grep::searcher::SearcherBuilder::new()
        .binary_detection(grep::searcher::BinaryDetection::quit(b'\x00'))
        .build();
    let mut lines: Vec<u64> = Vec::new();
    let sink = grep::searcher::sinks::Lossy(|lnum, _line| {
        lines.push(lnum);
        Ok(true)
    });
    let _ = searcher.search_reader(&matcher, contents, sink);
    Some(lines)
}

/// Whether `text` can be searched for: a valid line pattern.
pub fn pattern_accepted(text: &str) -> (b: bool)
    ensures
        b == line_pattern_accepted(text@),
{
    let nothing: Vec<u8> = Vec::new();
    grep_lines(text, nothing.as_slice()).is_some()
}

/// The findings of `text` on the lines `lines`.
pub open spec fn findings_of(text: Seq<char>, lines: Seq<u64>) -> Seq<(u64, Seq<char>)> {
    lines.map_values(|l: u64| (l, text))
}

/// The search results for the files at `paths` whose matching lines are
/// `found`: the files with at least one matching line, in order, each with
/// its path and a finding of `text` per matching line.
pub open spec fn kept_results(text: Seq<char>, paths: Seq<Seq<char>>, found: Seq<Seq<u64>>) -> Seq<(Seq<char>, Seq<(u64, Seq<char>)>)>
    decreases paths.len(),
{
    if paths.len() == 0 || found.len() == 0 {
        seq![]
    } else {
        let rest = kept_results(text, paths.drop_last(), found.drop_last());
        if found.last().len() > 0 {
            rest.push((paths.last(), findings_of(text, found.last())))
        } else {
            rest
        }
    }
}

/// The path that a search reports for a file walked at `path`: relative to
/// the git root `root_dir` when it lies under it, else as walked.
pub open spec fn reported_path(path: Seq<char>, root_dir: Seq<char>) -> Seq<char> {
    match relative_path_of(path, root_dir) {
        Some(p) => p,
        None => path,
    }
}

/// What `search` gives for `text` in the walked `files` under `root_dir`.
pub open spec fn search_spec(text: Seq<char>, root_dir: Seq<char>, files: Seq<(Seq<char>, Seq<u8>)>) -> Seq<(Seq<char>, Seq<(u64, Seq<char>)>)> {
    kept_results(
        text,
        Seq::new(files.len(), |i: int| reported_path(files[i].0, root_dir)),
        Seq::new(files.len(), |i: int| grep_matching_lines(text, files[i].1)),
    )
}

/// Builds the search results for the files at `filepaths` whose matching
/// lines are `found`: a result for each file with at least one line, in
/// order, with a finding of `text` per line.
pub fn collect_results(text: &String, filepaths: &Vec<String>, found: &Vec<Vec<u64>>) -> (r: Vec<SearchResult>)
    requires
        filepaths.len() == found.len(),
    ensures
        search_results_view(r@) == kept_results(text@, strings_view(filepaths@), line_lists_view(found@)),
{
    let ghost paths = strings_view(filepaths@);
    let ghost lists = line_lists_view(found@);
    let mut search_result: Vec<SearchResult> = Vec::new();
    let mut i: usize = 0;
    while i < found.len()
        invariant
            i <= found.len(),
            filepaths.len() == found.len(),
            paths == strings_view(filepaths@),
            lists == line_lists_view(found@),
            search_results_view(search_result@) == kept_results(text@, paths.take(i as int), lists.take(i as int)),
        decreases found.len() - i,
    {
        assert(paths.take(i + 1).drop_last() =~= paths.take(i as int));
        assert(lists.take(i + 1).drop_last() =~= lists.take(i as int));
        let lines = &found[i];
        if lines.len() > 0 {
            let mut findings: Vec<FileFinding> = Vec::new();
            let mut j: usize = 0;
            while j < lines.len()
                invariant
                    j <= lines.len(),
                    findings_view(findings@) == findings_of(text@, lines@.take(j as int)),
                decreases lines.len() - j,
            {
                let ghost before = findings_view(findings@);
                let phrase = text.clone();
                findings.push(FileFinding { phrase, line: lines[j] });
                assert(findings_view(findings@) =~= before.push((lines[j as int], text@)));
                assert(lines@.take(j + 1) =~= lines@.take(j as int).push(lines[j as int]));
                assert(findings_of(text@, lines@.take(j + 1)) =~= findings_of(text@, lines@.take(j as int)).push(
                    (lines[j as int], text@),
                ));
                j += 1;
            }
            assert(lines@.take(lines.len() as int) =~= lines@);
            let ghost before = search_results_view(search_result@);
            search_result.push(SearchResult { filepath: filepaths[i].clone(), findings });
            assert(search_results_view(search_result@) =~= before.push(
                (paths[i as int], findings_of(text@, lists[i as int])),
            ));
        }
        i += 1;
    }
    assert(paths.take(found.len() as int) =~= paths);
    assert(lists.take(found.len() as int) =~= lists);
    search_result
}

/// Searches `text` in the walked `files` (each a path and its contents) and
/// returns a `SearchResult` for each file with at least one matching line,
/// its path taken relative to the git root `root_dir` where it lies under it.
pub fn search(text: String, root_dir: &str, files: &Vec<(String, Vec<u8>)>) -> (r: Vec<SearchResult>)
    requires
        line_pattern_accepted(text@),
    ensures
        search_results_view(r@) == search_spec(text@, root_dir@, files_view(files@)),
        forall|i: int| 0 <= i < files.len() && plainly_relative(files[i].0@)
            ==> #[trigger] reported_path(files[i].0@, root_dir@) == files[i].0@,
{
    let ghost walked = files_view(files@);
    let ghost paths = Seq::new(walked.len(), |i: int| reported_path(walked[i].0, root_dir@));
    let ghost lists = Seq::new(walked.len(), |i: int| grep_matching_lines(text@, walked[i].1));
    let mut filepaths: Vec<String> = Vec::new();
    let mut found: Vec<Vec<u64>> = Vec::new();
    let mut i: usize = 0;
    while i < files.len()
        invariant
            i <= files.len(),
            line_pattern_accepted(text@),
            walked == files_view(files@),
            paths == Seq::new(walked.len(), |i: int| reported_path(walked[i].0, root_dir@)),
            lists == Seq::new(walked.len(), |i: int| grep_matching_lines(text@, walked[i].1)),
            filepaths.len() == i,
            found.len() == i,
            strings_view(filepaths@) == paths.take(i as int),
            line_lists_view(found@) == lists.take(i as int),
            forall|j: int| 0 <= j < i && plainly_relative(files[j].0@)
                ==> #[trigger] reported_path(files[j].0@, root_dir@) == files[j].0@,
        decreases files.len() - i,
    {
        assert(walked[i as int] == (files[i as int].0@, files[i as int].1@));
        let path = match repo_relative_path(files[i].0.as_str(), root_dir) {
            Some(p) => p,
            None => files[i].0.clone(),
        };
        let lines = match grep_lines(text.as_str(), files[i].1.as_slice()) {
            Some(lines) => lines,
            None => Vec::new(),
        };
        filepaths.push(path);
        found.push(lines);
        assert(strings_view(filepaths@) =~= paths.take(i + 1));
        assert(line_lists_view(found@) =~= lists.take(i + 1));
        i += 1;
    }
    assert(paths.take(files.len() as int) =~= paths);
    assert(lists.take(files.len() as int) =~= lists);
    collect_results(&text, &filepaths, &found)
}

/// `search`, with `renderer` started before and ended after it with the
/// message "Done with searching".
pub fn search_with_custom_ui<R: ProgressRenderer>(
    text: String,
    root_dir: &str,
    files: &Vec<(String, Vec<u8>)>,
    renderer: &mut R,
) -> (r: Vec<SearchResult>)
    requires
        line_pattern_accepted(text@),
    ensures
        search_results_view(r@) == search_spec(text@, root_dir@, files_view(files@)),
        forall|i: int| 0 <= i < files.len() && plainly_relative(files[i].0@)
            ==> #[trigger] reported_path(files[i].0@, root_dir@) == files[i].0@,
        R::keeps_events() ==> final(renderer).events() == old(renderer).events().push(RenderEvent::Start).push(
            RenderEvent::End(END_SEARCH_MESSAGE@),
        ),
{
    renderer.start();
    let search_results = search(text, root_dir, files);
    renderer.end(END_SEARCH_MESSAGE.to_string());
    search_results
}

/// `search_with_custom_ui` where `text` has first been tested: `None`, with
/// the renderer left alone, when it is no valid line pattern.
pub fn try_search_with_custom_ui<R: ProgressRenderer>(
    text: String,
    root_dir: &str,
    files: &Vec<(String, Vec<u8>)>,
    renderer: &mut R,
) -> (r: Option<Vec<SearchResult>>)
    ensures
        r is Some <==> line_pattern_accepted(text@),
        r is None ==> *final(renderer) == *old(renderer),
        r matches Some(v) ==> {
            &&& search_results_view(v@) == search_spec(text@, root_dir@, files_view(files@))
            &&& R::keeps_events() ==> final(renderer).events() == old(renderer).events().push(RenderEvent::Start).push(
                RenderEvent::End(END_SEARCH_MESSAGE@),
            )
        },
{
    if !pattern_accepted(text.as_str()) {
        return None;
    }
    Some(search_with_custom_ui(text, root_dir, files, renderer))
}

} // verus!
