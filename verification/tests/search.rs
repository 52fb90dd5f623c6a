use search_blame::{
    collect_results, pattern_accepted, search, search_with_custom_ui, try_search_with_custom_ui,
    ProgressRenderer, SearchResult, SilentProgress,
};

const MAIN_GO: &str = "package main\n\nimport \"fmt\"\n\nfunc main() {\n    fmt.Println(\"Hello World\")\n    res:=add(5,4)\n    fmt.Println(res)\n}\n";
const ADD_GO: &str = "package main\n\nfunc add(x int, y int) int{\n    return x+y\n}\n";
const MAIN_CPP: &str = "#include <iostream>\n\nint main() {\n    std::cout<<\"Hello World\"<<std::endl;\n    return 0;\n}\n";

fn file(path: &str, contents: &str) -> (String, Vec<u8>) {
    (path.to_string(), contents.as_bytes().to_vec())
}

fn view(results: &[SearchResult]) -> Vec<(String, Vec<(u64, String)>)> {
    results
        .iter()
        .map(|r| {
            (
                r.filepath.clone(),
                r.findings.iter().map(|f| (f.line, f.phrase.clone())).collect(),
            )
        })
        .collect()
}

fn found(text: &str, lines: &[u64]) -> Vec<(u64, String)> {
    lines.iter().map(|l| (*l, text.to_string())).collect()
}

#[derive(Default)]
struct Recorder {
    events: Vec<String>,
}

impl ProgressRenderer for Recorder {
    fn start(&mut self) {
        self.events.push("start".to_string());
    }
    fn end(&mut self, end_message: String) {
        self.events.push(end_message);
    }
}

#[test]
fn search_finds_matching_lines() {
    let files = vec![file("/r/main.go", MAIN_GO), file("/r/add.go", ADD_GO)];
    let res = search("main".to_string(), "/r", &files);
    assert_eq!(
        view(&res),
        vec![
            ("main.go".to_string(), found("main", &[1, 5])),
            ("add.go".to_string(), found("main", &[1])),
        ]
    );
}

#[test]
fn search_reports_paths_relative_to_the_root() {
    let files = vec![file("/r/src/main.go", MAIN_GO), file("rel/add.go", ADD_GO), file("/other/add.go", ADD_GO)];
    let res = search("package".to_string(), "/r", &files);
    let paths: Vec<String> = res.iter().map(|r| r.filepath.clone()).collect();
    assert_eq!(paths, vec!["src/main.go", "rel/add.go", "/other/add.go"]);
}

#[test]
fn search_leaves_out_files_without_match() {
    let files = vec![file("/r/main.go", MAIN_GO), file("/r/main.cpp", MAIN_CPP), file("/r/add.go", ADD_GO)];
    let res = search("#include".to_string(), "/r", &files);
    assert_eq!(view(&res), vec![("main.cpp".to_string(), found("#include", &[1]))]);
}

#[test]
fn search_uses_regular_expressions() {
    let files = vec![file("a", "abc\nx1y\nzzz\nx22y\n")];
    let res = search("x[0-9]+y".to_string(), "/r", &files);
    assert_eq!(view(&res), vec![("a".to_string(), found("x[0-9]+y", &[2, 4]))]);
}

#[test]
fn search_finds_a_last_line_without_newline() {
    let files = vec![file("a", "one\ntwo")];
    let res = search("two".to_string(), "/r", &files);
    assert_eq!(view(&res), vec![("a".to_string(), found("two", &[2]))]);
}

#[test]
fn pattern_accepted_rejects_invalid_patterns() {
    assert!(pattern_accepted("main"));
    assert!(pattern_accepted("x[0-9]+y"));
    assert!(!pattern_accepted("("));
    assert!(!pattern_accepted("a\nb"));
}

#[test]
fn search_of_no_files_is_empty() {
    assert!(search("main".to_string(), "/r", &vec![]).is_empty());
}

#[test]
fn search_quits_on_binary_data() {
    let files = vec![
        ("bin".to_string(), b"main 1\nmain 2\0\nmain 3\n".to_vec()),
        ("text".to_string(), b"main 4\n".to_vec()),
    ];
    let res = search("main".to_string(), "/r", &files);
    assert_eq!(view(&res), vec![("text".to_string(), found("main", &[1]))]);
}

#[test]
fn search_reads_invalid_text() {
    let files = vec![("latin".to_string(), b"caf\xe9\nmain\n".to_vec())];
    let res = search("main".to_string(), "/r", &files);
    assert_eq!(view(&res), vec![("latin".to_string(), found("main", &[2]))]);
}

#[test]
fn search_in_batches_equals_search_at_once() {
    let files = vec![file("/r/main.go", MAIN_GO), file("/r/main.cpp", MAIN_CPP), file("/r/add.go", ADD_GO)];
    let all = view(&search("main".to_string(), "/r", &files));
    let mut parts = view(&search("main".to_string(), "/r", &files[..1].to_vec()));
    parts.extend(view(&search("main".to_string(), "/r", &files[1..].to_vec())));
    assert_eq!(all, parts);
    assert_eq!(all.len(), 3);
}

#[test]
fn collect_results_keeps_files_with_lines() {
    let paths = vec!["a".to_string(), "b".to_string(), "c".to_string()];
    let lines = vec![vec![3, 1], vec![], vec![7]];
    let res = collect_results(&"x".to_string(), &paths, &lines);
    assert_eq!(
        view(&res),
        vec![("a".to_string(), found("x", &[3, 1])), ("c".to_string(), found("x", &[7]))]
    );
}

#[test]
fn search_with_custom_ui_brackets_the_work() {
    let files = vec![file("/r/add.go", ADD_GO)];
    let mut recorder = Recorder::default();
    let res = search_with_custom_ui("return".to_string(), "/r", &files, &mut recorder);
    assert_eq!(view(&res), vec![("add.go".to_string(), found("return", &[4]))]);
    assert_eq!(recorder.events, vec!["start".to_string(), "Done with searching".to_string()]);
}

#[test]
fn try_search_with_custom_ui_tests_the_pattern_first() {
    let files = vec![file("/r/add.go", ADD_GO)];
    let mut recorder = Recorder::default();
    assert!(try_search_with_custom_ui("(".to_string(), "/r", &files, &mut recorder).is_none());
    assert!(recorder.events.is_empty());
    let res = try_search_with_custom_ui("add".to_string(), "/r", &files, &mut recorder).unwrap();
    assert_eq!(view(&res), vec![("add.go".to_string(), found("add", &[3]))]);
    assert_eq!(recorder.events, vec!["start".to_string(), "Done with searching".to_string()]);
}

#[test]
fn silent_progress_gives_the_plain_search() {
    let files = vec![file("/r/main.go", MAIN_GO), file("/r/add.go", ADD_GO)];
    let mut silent = SilentProgress::new();
    let res = search_with_custom_ui("fmt".to_string(), "/r", &files, &mut silent);
    assert_eq!(view(&res), view(&search("fmt".to_string(), "/r", &files)));
    assert_eq!(view(&res), vec![("main.go".to_string(), found("fmt", &[3, 6, 8]))]);
}
