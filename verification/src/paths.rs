//! Candidate backend directories and the entry-point file that marks one as
//! a valid backend installation.
//!
//! The launcher probes a fixed list of directories, in priority order: a
//! development path relative to the working directory, then two layouts
//! relative to the running executable's directory (packaged resources, and a
//! flat bundle). A directory counts as a backend installation exactly when it
//! contains the entry-point file.

use vstd::prelude::*;
use vstd::string::StringExecFns;

verus! {

/// A directory path joined with one further component, using the portable
/// path separator.
pub open spec fn joined(dir: Seq<char>, name: Seq<char>) -> Seq<char> {
    dir + "/"@ + name
}

/// Join one path component onto a directory path.
pub fn join_path(dir: &str, name: &str) -> (r: String)
    ensures
        r@ == joined(dir@, name@),
{
    let mut s = dir.to_owned();
    s.append("/");
    s.append(name);
    s
}

/// The file whose presence marks a directory as a backend installation.
pub open spec fn entry_point_name() -> Seq<char> {
    "main.py"@
}

/// The entry-point file inside the given candidate directory.
pub fn entry_point_path(dir: &str) -> (r: String)
    ensures
        r@ == joined(dir@, entry_point_name()),
{
    join_path(dir, "main.py")
}

/// The backend directory used during development, relative to the working
/// directory.
pub open spec fn dev_dir() -> Seq<char> {
    "../backend"@
}

/// The packaged-resources layout: the backend sits beside the executable,
/// under a resources tree.
pub open spec fn resources_dir(exe_dir: Seq<char>) -> Seq<char> {
    joined(exe_dir, "../Resources/backend"@)
}

/// The flat bundled layout: the backend sits directly beside the executable.
pub open spec fn bundled_dir(exe_dir: Seq<char>) -> Seq<char> {
    joined(exe_dir, "backend"@)
}

/// The three candidate backend directories, in priority order. When the
/// executable's directory could not be resolved, the two layouts that depend
/// on it degrade to the empty path, which no entry-point probe can satisfy;
/// the candidate is then skipped rather than treated as an error.
pub fn candidate_dirs(exe_dir: &Option<String>) -> (r: Vec<String>)
    ensures
        r@.len() == 3,
        r@[0]@ == dev_dir(),
        exe_dir matches Some(d) ==> r@[1]@ == resources_dir(d@),
        exe_dir matches Some(d) ==> r@[2]@ == bundled_dir(d@),
        exe_dir is None ==> r@[1]@ == Seq::<char>::empty(),
        exe_dir is None ==> r@[2]@ == Seq::<char>::empty(),
{
    let mut r: Vec<String> = Vec::new();
    r.push("../backend".to_owned());
    match exe_dir {
        Some(d) => {
            r.push(join_path(d.as_str(), "../Resources/backend"));
            r.push(join_path(d.as_str(), "backend"));
        },
        None => {
            r.push(String::new());
            r.push(String::new());
        },
    }
    r
}

} // verus!
