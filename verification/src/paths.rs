use vstd::prelude::*;
use crate::strings::last_index_of;

verus! {

/// What `Path::strip_prefix` leaves of `path` below `root` (component-wise),
/// read back as text; `None` when `root` is not a leading part of `path`.
pub uninterp spec fn relative_to(path: Seq<char>, root: Seq<char>) -> Option<Seq<char>>;

/// The last component of `path` as `Path::file_name` gives it, if any.
pub uninterp spec fn file_name_of(path: Seq<char>) -> Option<Seq<char>>;

/// The extension of a file name: what follows its last `.`, unless there
/// is no `.` or the only one starts the name.
pub open spec fn name_extension(name: Seq<char>) -> Option<Seq<char>> {
    match last_index_of(name, '.') {
        None => None,
        Some(k) => if k == 0 {
            None
        } else {
            Some(name.skip(k + 1))
        },
    }
}

/// The extension of the last component of `path`, as `Path::extension`
/// documents it: none without a file name, else the file name's extension.
pub open spec fn extension_of(path: Seq<char>) -> Option<Seq<char>> {
    match file_name_of(path) {
        None => None,
        Some(n) => name_extension(n),
    }
}

/// `path` without its last component as `Path::parent` gives it, if any.
pub uninterp spec fn parent_of(path: Seq<char>) -> Option<Seq<char>>;

/// `std::path::Path::strip_prefix`, with the remainder read back lossily as
/// text. The contract only ties the answer to the two arguments.
#[verifier::external_body]
pub fn path_strip_prefix(path: &str, root: &str) -> (r: Option<String>)
    ensures
        match r {
            Some(s) => relative_to(path@, root@) == Some(s@),
            None => relative_to(path@, root@) is None,
        },
{
    std::path::Path::new(path).strip_prefix(root).ok().map(|p| p.to_string_lossy().into_owned())
}

/// `std::path::Path::file_name` of `path`, read back lossily as text. The
/// contract only ties the answer to the argument.
#[verifier::external_body]
pub fn path_file_name(path: &str) -> (r: Option<String>)
    ensures
        match r {
            Some(s) => file_name_of(path@) == Some(s@),
            None => file_name_of(path@) is None,
        },
{
    std::path::Path::new(path).file_name().map(|n| n.to_string_lossy().into_owned())
}

/// `std::path::Path::extension` of `path`, read back lossily as text. The
/// contract states the rules of its documentation over the file name that
/// `Path::file_name` gives.
#[verifier::external_body]
pub fn path_extension(path: &str) -> (r: Option<String>)
    ensures
        match r {
            Some(s) => extension_of(path@) == Some(s@),
            None => extension_of(path@) is None,
        },
{
    std::path::Path::new(path).extension().map(|e| e.to_string_lossy().into_owned())
}

/// `std::path::Path::parent` of `path`, read back lossily as text. The
/// contract only ties the answer to the argument.
#[verifier::external_body]
pub fn path_parent(path: &str) -> (r: Option<String>)
    ensures
        match r {
            Some(s) => parent_of(path@) == Some(s@),
            None => parent_of(path@) is None,
        },
{
    std::path::Path::new(path).parent().map(|p| p.to_string_lossy().into_owned())
}


/// `base` is a prefix of `path`, whole components only.
pub uninterp spec fn path_prefix(path: Seq<char>, base: Seq<char>) -> bool;

/// `std::path::Path::starts_with`: whether `base` is a prefix of `path`,
/// comparing whole components. The contract names the answer.
#[verifier::external_body]
pub fn path_starts_with(path: &str, base: &str) -> (r: bool)
    ensures
        r == path_prefix(path@, base@),
{
    std::path::Path::new(path).starts_with(base)
}

/// The two paths have the same components.
pub uninterp spec fn same_path(a: Seq<char>, b: Seq<char>) -> bool;

/// `==` on `std::path::Path`: whether the two paths have the same
/// components. The contract names the answer.
#[verifier::external_body]
fn path_equal(a: &str, b: &str) -> (r: bool)
    ensures
        r == same_path(a@, b@),
{
    std::path::Path::new(a) == std::path::Path::new(b)
}

/// `child` equals `dir` or lies below it, comparing whole components.
pub open spec fn at_or_under(child: Seq<char>, dir: Seq<char>) -> bool {
    same_path(child, dir) || path_prefix(child, dir)
}

/// Whether `child` equals `dir` or lies below it (see `at_or_under`).
pub fn path_at_or_under(child: &str, dir: &str) -> (r: bool)
    ensures
        r == at_or_under(child@, dir@),
{
    path_equal(child, dir) || path_starts_with(child, dir)
}

} // verus!
