//! Text search combined with `git blame`: find the lines of files that hold a
//! phrase, then keep those that a given person last changed.

pub mod blame_laws;
pub mod cli;
pub mod git;
pub mod paths;
pub mod search;
pub mod search_laws;
pub mod ui;

pub use cli::Cli;
pub use git::{
    blame, blame_with_custom_ui, blamed_user, group_blamed_lines, relative_paths,
    try_blame_with_custom_ui, BlameFileResult, BlameHunk, RepoBlame,
};
pub use paths::repo_relative_path;
pub use search::{
    collect_results, pattern_accepted, search, search_with_custom_ui, try_search_with_custom_ui,
    FileFinding, SearchResult,
};
pub use ui::{ProgressRenderer, RenderEvent, SilentProgress};
