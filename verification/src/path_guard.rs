use vstd::prelude::*;
use crate::paths::{path_prefix, path_starts_with};
use crate::strings::{
    append_str, chars_of, contains, contains_lit, has_char, has_char_exec, starts_with, starts_with_lit, string_of,
};

verus! {

// ---------------------------------------------------------------------------
// What is wrong with a path
// ---------------------------------------------------------------------------

/// A reason to refuse a path, as values.
pub enum PathProblem {
    Empty,
    NullByte,
    Encoding(Seq<char>),
    HomeShortcut,
    Traversal(Seq<char>),
    Unc,
    OutsideScope,
    ParentOutsideScope,
    InvalidUtf8,
}

/// URL encodings that could smuggle dots, slashes or NUL past the checks.
pub open spec fn suspicious_encodings() -> Seq<Seq<char>> {
    seq!["%2e"@, "%2E"@, "%2f"@, "%2F"@, "%5c"@, "%5C"@, "%00"@, "%252e"@, "%252E"@]
}

/// Pieces of a path that could climb out of a directory or expand.
pub open spec fn traversal_patterns() -> Seq<Seq<char>> {
    seq![".."@, "~"@, "$"@, "./"@, ".\\"@, "../"@, "..\\"@]
}

/// The first of `pats`, in order, that occurs in `s`.
pub open spec fn first_contained(s: Seq<char>, pats: Seq<Seq<char>>) -> Option<Seq<char>>
    decreases pats.len(),
{
    if pats.len() == 0 {
        None
    } else if contains(s, pats[0]) {
        Some(pats[0])
    } else {
        first_contained(s, pats.drop_first())
    }
}

/// The first suspicious encoding of a path that holds a `%`.
pub open spec fn encoding_problem(path: Seq<char>) -> Option<Seq<char>> {
    if has_char(path, '%') {
        first_contained(path, suspicious_encodings())
    } else {
        None
    }
}

/// What is wrong with the text of a file path, checked in this order: it
/// is empty, holds NUL, holds a suspicious URL encoding, or (off Windows)
/// starts with the home shortcut `~/` or `~\`.
pub open spec fn file_path_problem(path: Seq<char>, windows: bool) -> Option<PathProblem> {
    if path.len() == 0 {
        Some(PathProblem::Empty)
    } else if has_char(path, '\0') {
        Some(PathProblem::NullByte)
    } else if encoding_problem(path) is Some {
        Some(PathProblem::Encoding(encoding_problem(path)->0))
    } else if !windows && (starts_with(path, "~/"@) || starts_with(path, "~\\"@)) {
        Some(PathProblem::HomeShortcut)
    } else {
        None
    }
}

/// What is wrong with the text of a transcript path, checked in this order:
/// it holds NUL, a suspicious URL encoding, a traversal pattern, or (off
/// Windows) a doubled backslash.
pub open spec fn transcript_path_problem(path: Seq<char>, windows: bool) -> Option<PathProblem> {
    if has_char(path, '\0') {
        Some(PathProblem::NullByte)
    } else if encoding_problem(path) is Some {
        Some(PathProblem::Encoding(encoding_problem(path)->0))
    } else if first_contained(path, traversal_patterns()) is Some {
        Some(PathProblem::Traversal(first_contained(path, traversal_patterns())->0))
    } else if contains(path, "\\\\"@) && !windows {
        Some(PathProblem::Unc)
    } else {
        None
    }
}

fn first_contained_exec<'a>(s: &[char], pats: &[&'a str]) -> (r: Option<&'a str>)
    ensures
        match r {
            Some(p) => first_contained(s@, pats@.map_values(|q: &str| q@)) == Some(p@),
            None => first_contained(s@, pats@.map_values(|q: &str| q@)) is None,
        },
{
    let ghost pv = pats@.map_values(|q: &str| q@);
    let mut k: usize = 0;
    assert(pv.skip(0) =~= pv);
    while k < pats.len()
        invariant
            k <= pats@.len(),
            pv == pats@.map_values(|q: &str| q@),
            first_contained(s@, pv) == first_contained(s@, pv.skip(k as int)),
        decreases pats@.len() - k,
    {
        assert(pv.skip(k as int)[0] == pats@[k as int]@);
        assert(pv.skip(k as int).drop_first() =~= pv.skip(k + 1));
        if contains_lit(s, pats[k]) {
            return Some(pats[k]);
        }
        k = k + 1;
    }
    None
}

fn encoding_problem_exec(s: &[char]) -> (r: Option<&'static str>)
    ensures
        match r {
            Some(p) => encoding_problem(s@) == Some(p@),
            None => encoding_problem(s@) is None,
        },
{
    if !has_char_exec(s, '%') {
        return None;
    }
    let encs: [&'static str; 9] = ["%2e", "%2E", "%2f", "%2F", "%5c", "%5C", "%00", "%252e", "%252E"];
    assert(encs@.map_values(|q: &str| q@) =~= suspicious_encodings());
    first_contained_exec(s, &encs)
}

// ---------------------------------------------------------------------------
// File paths
// ---------------------------------------------------------------------------

/// Why a file path is refused.
pub enum FilePathError {
    Empty,
    NullByte,
    SuspiciousEncoding(String),
    HomeShortcut,
    OutsideWorkingDirectory,
}

impl View for FilePathError {
    type V = PathProblem;

    open spec fn view(&self) -> PathProblem {
        match self {
            FilePathError::Empty => PathProblem::Empty,
            FilePathError::NullByte => PathProblem::NullByte,
            FilePathError::SuspiciousEncoding(e) => PathProblem::Encoding(e@),
            FilePathError::HomeShortcut => PathProblem::HomeShortcut,
            FilePathError::OutsideWorkingDirectory => PathProblem::OutsideScope,
        }
    }
}

/// The message for a refused file path.
pub open spec fn file_path_message(p: PathProblem) -> Seq<char> {
    match p {
        PathProblem::Empty => "Invalid file path: empty path"@,
        PathProblem::NullByte => "Invalid file path: contains null byte"@,
        PathProblem::Encoding(e) => "Invalid file path: contains suspicious URL encoding: "@ + e,
        PathProblem::HomeShortcut => "Invalid file path: leading ~ home shortcut not allowed"@,
        _ => "Invalid file path: path is outside working directory"@,
    }
}

impl FilePathError {
    /// The message for this refusal.
    pub fn message(&self) -> (r: String)
        ensures
            r@ == file_path_message(self@),
    {
        match self {
            FilePathError::Empty => crate::strings::owned("Invalid file path: empty path"),
            FilePathError::NullByte => crate::strings::owned("Invalid file path: contains null byte"),
            FilePathError::SuspiciousEncoding(e) => {
                let mut out: Vec<char> = Vec::new();
                append_str(&mut out, "Invalid file path: contains suspicious URL encoding: ");
                append_str(&mut out, e.as_str());
                string_of(out.as_slice())
            },
            FilePathError::HomeShortcut => crate::strings::owned("Invalid file path: leading ~ home shortcut not allowed"),
            FilePathError::OutsideWorkingDirectory => crate::strings::owned(
                "Invalid file path: path is outside working directory",
            ),
        }
    }
}

/// The checks on the text of a file path (see `file_path_problem`);
/// `windows` tells whether the hooks run on Windows.
pub fn validate_file_path_text(path: &str, windows: bool) -> (r: Result<(), FilePathError>)
    ensures
        match r {
            Ok(_) => file_path_problem(path@, windows) is None,
            Err(e) => file_path_problem(path@, windows) == Some(e@),
        },
{
    let c = chars_of(path);
    let s = c.as_slice();
    if c.len() == 0 {
        return Err(FilePathError::Empty);
    }
    if has_char_exec(s, '\0') {
        return Err(FilePathError::NullByte);
    }
    match encoding_problem_exec(s) {
        Some(e) => {
            return Err(FilePathError::SuspiciousEncoding(crate::strings::owned(e)));
        },
        None => {},
    }
    if !windows && (starts_with_lit(s, "~/") || starts_with_lit(s, "~\\")) {
        return Err(FilePathError::HomeShortcut);
    }
    Ok(())
}

// ---------------------------------------------------------------------------
// Directory scope
// ---------------------------------------------------------------------------

/// A resolved file path must lie inside the resolved working directory.
pub fn file_path_within(canonical: &str, cwd: &str) -> (r: Result<(), FilePathError>)
    ensures
        r is Ok == path_prefix(canonical@, cwd@),
        r matches Err(e) ==> e@ == PathProblem::OutsideScope,
{
    if path_starts_with(canonical, cwd) {
        Ok(())
    } else {
        Err(FilePathError::OutsideWorkingDirectory)
    }
}

/// The path lies inside one of the directories.
pub fn within_any(path: &str, dirs: &Vec<String>) -> (r: bool)
    ensures
        r == exists|k: int| 0 <= k < dirs@.len() && path_prefix(path@, (#[trigger] dirs@[k])@),
{
    let mut k: usize = 0;
    while k < dirs.len()
        invariant
            k <= dirs@.len(),
            forall|j: int| 0 <= j < k ==> !path_prefix(path@, (#[trigger] dirs@[j])@),
        decreases dirs@.len() - k,
    {
        if path_starts_with(path, dirs[k].as_str()) {
            return true;
        }
        k = k + 1;
    }
    false
}

// ---------------------------------------------------------------------------
// Transcript paths
// ---------------------------------------------------------------------------

/// Why a transcript path is refused.
pub enum TranscriptPathError {
    NullByte,
    SuspiciousEncoding(String),
    Traversal(String),
    UncPattern,
    OutsideAllowedDirectories,
    ParentOutsideAllowedDirectories,
    InvalidUtf8,
}

impl View for TranscriptPathError {
    type V = PathProblem;

    open spec fn view(&self) -> PathProblem {
        match self {
            TranscriptPathError::NullByte => PathProblem::NullByte,
            TranscriptPathError::SuspiciousEncoding(e) => PathProblem::Encoding(e@),
            TranscriptPathError::Traversal(p) => PathProblem::Traversal(p@),
            TranscriptPathError::UncPattern => PathProblem::Unc,
            TranscriptPathError::OutsideAllowedDirectories => PathProblem::OutsideScope,
            TranscriptPathError::ParentOutsideAllowedDirectories => PathProblem::ParentOutsideScope,
            TranscriptPathError::InvalidUtf8 => PathProblem::InvalidUtf8,
        }
    }
}

/// The message for a refused transcript path.
pub open spec fn transcript_path_message(p: PathProblem) -> Seq<char> {
    match p {
        PathProblem::NullByte => "Path contains null bytes"@,
        PathProblem::Encoding(e) => "Path contains suspicious URL encoding: "@ + e,
        PathProblem::Traversal(t) => "Path contains potential traversal pattern: "@ + t,
        PathProblem::Unc => "Path contains UNC pattern on non-Windows system"@,
        PathProblem::OutsideScope => "Path is outside allowed directories"@,
        PathProblem::ParentOutsideScope => "Parent directory is outside allowed directories"@,
        _ => "Path contains invalid UTF-8"@,
    }
}

impl TranscriptPathError {
    /// The message for this refusal.
    pub fn message(&self) -> (r: String)
        ensures
            r@ == transcript_path_message(self@),
    {
        match self {
            TranscriptPathError::NullByte => crate::strings::owned("Path contains null bytes"),
            TranscriptPathError::SuspiciousEncoding(e) => {
                let mut out: Vec<char> = Vec::new();
                append_str(&mut out, "Path contains suspicious URL encoding: ");
                append_str(&mut out, e.as_str());
                string_of(out.as_slice())
            },
            TranscriptPathError::Traversal(p) => {
                let mut out: Vec<char> = Vec::new();
                append_str(&mut out, "Path contains potential traversal pattern: ");
                append_str(&mut out, p.as_str());
                string_of(out.as_slice())
            },
            TranscriptPathError::UncPattern => crate::strings::owned("Path contains UNC pattern on non-Windows system"),
            TranscriptPathError::OutsideAllowedDirectories => crate::strings::owned(
                "Path is outside allowed directories",
            ),
            TranscriptPathError::ParentOutsideAllowedDirectories => crate::strings::owned(
                "Parent directory is outside allowed directories",
            ),
            TranscriptPathError::InvalidUtf8 => crate::strings::owned("Path contains invalid UTF-8"),
        }
    }
}

/// The checks on the text of a transcript path (see
/// `transcript_path_problem`); `windows` tells whether the hooks run on
/// Windows.
pub fn validate_transcript_path_text(path: &str, windows: bool) -> (r: Result<(), TranscriptPathError>)
    ensures
        match r {
            Ok(_) => transcript_path_problem(path@, windows) is None,
            Err(e) => transcript_path_problem(path@, windows) == Some(e@),
        },
{
    let c = chars_of(path);
    let s = c.as_slice();
    if has_char_exec(s, '\0') {
        return Err(TranscriptPathError::NullByte);
    }
    match encoding_problem_exec(s) {
        Some(e) => {
            return Err(TranscriptPathError::SuspiciousEncoding(crate::strings::owned(e)));
        },
        None => {},
    }
    let pats: [&'static str; 7] = ["..", "~", "$", "./", ".\\", "../", "..\\"];
    assert(pats@.map_values(|q: &str| q@) =~= traversal_patterns());
    match first_contained_exec(s, &pats) {
        Some(p) => {
            return Err(TranscriptPathError::Traversal(crate::strings::owned(p)));
        },
        None => {},
    }
    if contains_lit(s, "\\\\") && !windows {
        return Err(TranscriptPathError::UncPattern);
    }
    Ok(())
}

/// The checks on the resolved form of an existing transcript path: it lies
/// in one of the resolved allowed directories, and (off Windows) holds no
/// doubled backslash.
pub fn validate_transcript_canonical(canonical: &str, allowed: &Vec<String>, windows: bool) -> (r: Result<
    (),
    TranscriptPathError,
>)
    ensures
        match r {
            Ok(_) => (exists|k: int| 0 <= k < allowed@.len() && path_prefix(canonical@, (#[trigger] allowed@[k])@))
                && !(contains(canonical@, "\\\\"@) && !windows),
            Err(e) => if !(exists|k: int| 0 <= k < allowed@.len() && path_prefix(canonical@, (#[trigger] allowed@[k])@)) {
                e@ == PathProblem::OutsideScope
            } else {
                e@ == PathProblem::Unc
            },
        },
{
    if !within_any(canonical, allowed) {
        return Err(TranscriptPathError::OutsideAllowedDirectories);
    }
    let c = chars_of(canonical);
    if contains_lit(c.as_slice(), "\\\\") && !windows {
        return Err(TranscriptPathError::UncPattern);
    }
    Ok(())
}

/// The check on the resolved parent of a transcript path that does not
/// exist yet: it lies in one of the resolved allowed directories.
pub fn validate_transcript_parent(parent: &str, allowed: &Vec<String>) -> (r: Result<(), TranscriptPathError>)
    ensures
        r is Ok == exists|k: int| 0 <= k < allowed@.len() && path_prefix(parent@, (#[trigger] allowed@[k])@),
        r matches Err(e) ==> e@ == PathProblem::ParentOutsideScope,
{
    if within_any(parent, allowed) {
        Ok(())
    } else {
        Err(TranscriptPathError::ParentOutsideAllowedDirectories)
    }
}

} // verus!
