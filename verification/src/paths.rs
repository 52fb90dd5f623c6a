use vstd::prelude::*;

verus! {

/// Whether `path` is absolute, as `std::path::Path::is_absolute` decides it
/// for the target's path syntax.
pub uninterp spec fn path_is_absolute(path: Seq<char>) -> bool;

/// What `std::path::Path::strip_prefix` leaves of `path` once `base` is taken
/// off its front, as text; `None` where `base` is not a prefix of `path`.
pub uninterp spec fn path_strip_prefix(path: Seq<char>, base: Seq<char>) -> Option<Seq<char>>;

/// A path with no root and no prefix on any target: it does not begin with
/// a separator (`/` or `\`) and holds no drive or scheme separator (`:`).
pub open spec fn plainly_relative(path: Seq<char>) -> bool {
    &&& (path.len() == 0 || (path[0] != '/' && path[0] != '\\'))
    &&& !path.contains(':')
}

/// `std::path::Path::is_absolute` on `path`. The contract claims that the
/// answer is a function of the text of `path` (named `path_is_absolute`), and
/// that a path with neither a leading separator nor a `:` is not absolute:
/// such a path has no root and no prefix, on Unix as on Windows. What makes a
/// path absolute is left to the name, since it differs between targets.
#[verifier::external_body]
fn is_absolute_path(path: &str) -> (r: bool)
    ensures
        r == path_is_absolute(path@),
        plainly_relative(path@) ==> !r,
{
    std::path::Path::new(path).is_absolute()
}

/// `std::path::Path::strip_prefix` of `base` from `path`, turned back into
/// text. The contract claims only that the result is a function of the two
/// texts (named `path_strip_prefix`); `None` stands for the error, and for a
/// remainder that is no valid text.
#[verifier::external_body]
fn strip_path_prefix(path: &str, base: &str) -> (r: Option<String>)
    ensures
        r is Some <==> path_strip_prefix(path@, base@) is Some,
        r matches Some(s) ==> path_strip_prefix(path@, base@) == Some(s@),
{
    match std::path::Path::new(path).strip_prefix(base) {
        Ok(rest) => rest.to_str().map(String::from),
        Err(_) => None,
    }
}

/// The path of `filepath` relative to the repository root `root_dir`: an
/// absolute path loses the root in front; a relative one stays as it is.
/// `None` when an absolute path does not lie under the root.
pub open spec fn relative_path_of(filepath: Seq<char>, root_dir: Seq<char>) -> Option<Seq<char>> {
    if path_is_absolute(filepath) {
        path_strip_prefix(filepath, root_dir)
    } else {
        Some(filepath)
    }
}

/// The path of `filepath` relative to the repository root `root_dir`, as git
/// blame wants it; `None` when `filepath` is absolute and not under the root.
pub fn repo_relative_path(filepath: &str, root_dir: &str) -> (r: Option<String>)
    ensures
        r is Some <==> relative_path_of(filepath@, root_dir@) is Some,
        r matches Some(s) ==> relative_path_of(filepath@, root_dir@) == Some(s@),
        plainly_relative(filepath@) ==> (r matches Some(s) && s@ == filepath@),
{
    if is_absolute_path(filepath) {
        strip_path_prefix(filepath, root_dir)
    } else {
        Some(filepath.to_string())
    }
}

/// The texts of a list of strings.
pub open spec fn strings_view(v: Seq<String>) -> Seq<Seq<char>> {
    v.map_values(|s: String| s@)
}

} // verus!
