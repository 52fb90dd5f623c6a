use search_blame::{
    blame, blame_with_custom_ui, blamed_user, group_blamed_lines, relative_paths, repo_relative_path,
    try_blame_with_custom_ui, BlameFileResult, BlameHunk, FileFinding, ProgressRenderer, RepoBlame,
    SearchResult, SilentProgress,
};

fn finding(line: u64) -> FileFinding {
    FileFinding { phrase: "main".to_string(), line }
}

fn result(path: &str, lines: &[u64]) -> SearchResult {
    SearchResult {
        filepath: path.to_string(),
        findings: lines.iter().map(|l| finding(*l)).collect(),
    }
}

fn hunk(start_line: usize, lines_in_hunk: usize, author: &str) -> BlameHunk {
    BlameHunk { start_line, lines_in_hunk, author: author.to_string() }
}

fn repo(file_hunks: Vec<Option<Vec<BlameHunk>>>) -> RepoBlame {
    RepoBlame {
        root_dir: "/repo".to_string(),
        signature_name: Some("user".to_string()),
        file_hunks,
    }
}

fn view(results: &[BlameFileResult]) -> Vec<(String, Vec<usize>)> {
    results.iter().map(|r| (r.file.clone(), r.line_numbers.clone())).collect()
}

#[derive(Default)]
struct Recorder {
    events: Vec<String>,
}

impl ProgressRenderer for Recorder {
    fn start(&mut self) {
        self.events.push("start".to_string());
    }
    fn end(&mut self, end_message: String) {
        self.events.push(end_message);
    }
}

#[test]
fn add_line_number_appends() {
    let mut r = BlameFileResult { file: "a.go".to_string(), line_numbers: vec![3] };
    r.add_line_number(7);
    r.add_line_number(1);
    assert_eq!(r.file, "a.go");
    assert_eq!(r.line_numbers, vec![3, 7, 1]);
}

#[test]
fn relative_path_strips_the_root() {
    assert_eq!(repo_relative_path("/repo/src/main.go", "/repo"), Some("src/main.go".to_string()));
    assert_eq!(repo_relative_path("/repo/main.go", "/repo/"), Some("main.go".to_string()));
    assert_eq!(repo_relative_path("/repo", "/repo"), Some(String::new()));
}

#[test]
fn relative_path_keeps_relative_paths() {
    assert_eq!(repo_relative_path("main.go", "/repo"), Some("main.go".to_string()));
    assert_eq!(repo_relative_path("src/../main.go", "/elsewhere"), Some("src/../main.go".to_string()));
}

#[test]
fn relative_path_outside_root_is_none() {
    assert_eq!(repo_relative_path("/other/main.go", "/repo"), None);
    assert_eq!(repo_relative_path("/repository/main.go", "/repo"), None);
}

#[test]
fn blame_keeps_lines_of_the_user() {
    let mut files = vec![result("/repo/main.go", &[1, 5, 7]), result("/repo/add.go", &[1])];
    let repo = repo(vec![
        Some(vec![hunk(1, 4, "user"), hunk(5, 2, "user1"), hunk(7, 3, "user")]),
        Some(vec![hunk(1, 5, "user1")]),
    ]);
    let res = blame(&repo, Some("user".to_string()), &mut files);
    assert_eq!(view(&res), vec![("main.go".to_string(), vec![1, 7])]);
    assert_eq!(files.len(), 2);
    assert_eq!(files[0].filepath, "/repo/main.go");
}

#[test]
fn blame_uses_the_configured_user_by_default() {
    let mut files = vec![result("/repo/main.go", &[1, 5]), result("add.go", &[2])];
    let repo = repo(vec![
        Some(vec![hunk(1, 4, "user"), hunk(5, 1, "user1")]),
        Some(vec![hunk(1, 5, "user")]),
    ]);
    let res = blame(&repo, None, &mut files);
    assert_eq!(
        view(&res),
        vec![("main.go".to_string(), vec![1]), ("add.go".to_string(), vec![2])]
    );
}

#[test]
fn blame_orders_lines_by_hunk() {
    let mut files = vec![result("main.go", &[2, 9])];
    let repo = repo(vec![Some(vec![hunk(8, 2, "user"), hunk(1, 3, "user")])]);
    let res = blame(&repo, None, &mut files);
    assert_eq!(view(&res), vec![("main.go".to_string(), vec![9, 2])]);
}

#[test]
fn blame_hunk_bounds_are_inclusive() {
    let mut files = vec![result("main.go", &[3, 4, 6, 7])];
    let repo = repo(vec![Some(vec![hunk(4, 3, "user")])]);
    let res = blame(&repo, None, &mut files);
    assert_eq!(view(&res), vec![("main.go".to_string(), vec![4, 6])]);
}

#[test]
fn blame_skips_untracked_files() {
    let mut files = vec![result("/repo/main.cpp", &[1, 4])];
    let repo = repo(vec![None]);
    let res = blame(&repo, Some("user".to_string()), &mut files);
    assert!(res.is_empty());
}

#[test]
fn blame_of_another_author_is_empty() {
    let mut files = vec![result("README.md", &[1])];
    let repo = repo(vec![Some(vec![hunk(1, 7, "user1")])]);
    let res = blame(&repo, Some("user".to_string()), &mut files);
    assert!(res.is_empty());
}

#[test]
fn blame_merges_consecutive_results_of_one_file() {
    let mut files = vec![result("/repo/main.go", &[1]), result("main.go", &[2])];
    let repo = repo(vec![Some(vec![hunk(1, 9, "user")]), Some(vec![hunk(1, 9, "user")])]);
    let res = blame(&repo, None, &mut files);
    assert_eq!(view(&res), vec![("main.go".to_string(), vec![1, 2])]);
}

#[test]
fn blame_separates_non_consecutive_results_of_one_file() {
    let mut files = vec![result("a", &[1]), result("b", &[1]), result("a", &[2])];
    let repo = repo(vec![
        Some(vec![hunk(1, 9, "user")]),
        Some(vec![hunk(1, 9, "user1")]),
        Some(vec![hunk(1, 9, "user")]),
    ]);
    let res = blame(&repo, None, &mut files);
    assert_eq!(
        view(&res),
        vec![("a".to_string(), vec![1]), ("a".to_string(), vec![2])]
    );
}

#[test]
fn blame_carries_lines_of_the_root_itself_into_the_next_file() {
    let mut files = vec![result("/repo", &[1]), result("b", &[2])];
    let repo = repo(vec![Some(vec![hunk(1, 9, "user")]), Some(vec![hunk(1, 9, "user")])]);
    let res = blame(&repo, None, &mut files);
    assert_eq!(view(&res), vec![("b".to_string(), vec![1, 2])]);
}

#[test]
fn blame_outside_the_root_is_refused() {
    let mut files = vec![result("main.go", &[1]), result("/elsewhere/x.go", &[1])];
    let repo = repo(vec![Some(vec![hunk(1, 9, "user")]), None]);
    assert!(relative_paths("/repo", &files).is_none());
    let mut recorder = Recorder::default();
    assert!(try_blame_with_custom_ui(&repo, None, &mut files, &mut recorder).is_none());
    assert!(recorder.events.is_empty());
    assert_eq!(files.len(), 2);
}

#[test]
fn relative_paths_of_results() {
    let files = vec![result("/repo/a/main.go", &[1]), result("add.go", &[2])];
    assert_eq!(
        relative_paths("/repo", &files),
        Some(vec!["a/main.go".to_string(), "add.go".to_string()])
    );
}

#[test]
fn group_blamed_lines_uses_the_given_paths() {
    let files = vec![result("/anywhere/x", &[1, 2]), result("/anywhere/y", &[3])];
    let paths = vec!["p".to_string(), "p".to_string()];
    let hunks = vec![Some(vec![hunk(1, 1, "user")]), Some(vec![hunk(3, 1, "user")])];
    let res = group_blamed_lines(&"user".to_string(), &paths, &files, &hunks);
    assert_eq!(view(&res), vec![("p".to_string(), vec![1, 3])]);
}

#[test]
fn try_blame_with_custom_ui_inside_the_root() {
    let mut files = vec![result("/repo/main.go", &[1, 2])];
    let repo = repo(vec![Some(vec![hunk(2, 1, "user")])]);
    let mut recorder = Recorder::default();
    let res = try_blame_with_custom_ui(&repo, None, &mut files, &mut recorder).unwrap();
    assert_eq!(view(&res), vec![("main.go".to_string(), vec![2])]);
    assert_eq!(recorder.events, vec!["start".to_string(), "Done with blaming".to_string()]);
}

#[test]
fn blame_of_no_files_is_empty() {
    let mut files: Vec<SearchResult> = vec![];
    let res = blame(&repo(vec![]), None, &mut files);
    assert!(res.is_empty());
}

#[test]
fn blame_loses_no_line() {
    let mut files = vec![
        result("a", &[1, 2]),
        result("a", &[3]),
        result("b", &[4]),
        result("c", &[5, 6]),
    ];
    let repo = repo(vec![
        Some(vec![hunk(1, 2, "user")]),
        Some(vec![hunk(3, 1, "user")]),
        Some(vec![hunk(4, 1, "user1")]),
        Some(vec![hunk(5, 2, "user")]),
    ]);
    let res = blame(&repo, None, &mut files);
    let all: Vec<usize> = res.iter().flat_map(|r| r.line_numbers.clone()).collect();
    assert_eq!(all, vec![1, 2, 3, 5, 6]);
    assert!(res.iter().all(|r| !r.line_numbers.is_empty()));
}

#[test]
fn blame_with_custom_ui_brackets_the_work() {
    let mut files = vec![result("main.go", &[1])];
    let repo = repo(vec![Some(vec![hunk(1, 1, "user")])]);
    let mut recorder = Recorder::default();
    let res = blame_with_custom_ui(&repo, None, &mut files, &mut recorder);
    assert_eq!(view(&res), vec![("main.go".to_string(), vec![1])]);
    assert_eq!(recorder.events, vec!["start".to_string(), "Done with blaming".to_string()]);
}

#[test]
fn silent_progress_gives_the_plain_blame() {
    let mut files = vec![result("/repo/main.go", &[1, 2, 3])];
    let repo = repo(vec![Some(vec![hunk(1, 2, "user"), hunk(3, 1, "user1")])]);
    let mut silent = SilentProgress::new();
    let res = blame_with_custom_ui(&repo, Some("user1".to_string()), &mut files, &mut silent);
    assert_eq!(view(&res), vec![("main.go".to_string(), vec![3])]);
}

#[test]
fn blamed_user_prefers_the_given_user() {
    let given = Some("user1".to_string());
    let configured = Some("user".to_string());
    assert_eq!(blamed_user(&given, &configured), Some("user1".to_string()));
    assert_eq!(blamed_user(&None, &configured), Some("user".to_string()));
    assert_eq!(blamed_user(&given, &None), Some("user1".to_string()));
    assert_eq!(blamed_user(&None, &None), None);
}

#[test]
fn blame_without_an_untracked_file_is_the_same() {
    let mut files = vec![result("a", &[1]), result("b", &[2]), result("c", &[3])];
    let mut fewer = vec![result("a", &[1]), result("c", &[3])];
    let all = repo(vec![Some(vec![hunk(1, 9, "user")]), None, Some(vec![hunk(1, 9, "user")])]);
    let without = repo(vec![Some(vec![hunk(1, 9, "user")]), Some(vec![hunk(1, 9, "user")])]);
    let res = blame(&all, None, &mut files);
    assert_eq!(view(&res), view(&blame(&without, None, &mut fewer)));
    assert!(res.iter().all(|r| r.file != "b"));
}

#[test]
fn blame_splits_lines_among_authors() {
    let hunks = || Some(vec![hunk(1, 2, "user"), hunk(3, 2, "user1")]);
    let mut files = vec![result("a", &[1, 3, 4, 9])];
    let mine = blame(&repo(vec![hunks()]), Some("user".to_string()), &mut files);
    let theirs = blame(&repo(vec![hunks()]), Some("user1".to_string()), &mut files);
    assert_eq!(view(&mine), vec![("a".to_string(), vec![1])]);
    assert_eq!(view(&theirs), vec![("a".to_string(), vec![3, 4])]);
}
