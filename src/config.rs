//! Configuration-file search: the file-name pattern, the candidate paths ordered by precedence, and the
//! choice of the existing files among them.

pub mod laws;
pub mod plan;
pub mod search;

pub use plan::plan_candidates;
pub use plan::Candidate;
pub use plan::SearchDirs;
pub use plan::SearchPath;
pub use search::find_config_files_impl;
pub use search::select_files;
pub use search::Probe;
pub use search::TraceRecord;

use vstd::prelude::*;

verus! {

// Outside items --------------------------------------------------------------------------------------------

/// The error type of `std::io`, carried through by [`FindError::Io`].
#[verifier::external_type_specification]
#[verifier::external_body]
pub struct ExIoError(std::io::Error);

// `ConfigLevel` --------------------------------------------------------------------------------------------

/// Configuration levels, ordered from lowest (most general) to highest (most specific) priority.
#[derive(Clone, Copy, Debug, PartialEq, Eq, Structural)]
pub enum ConfigLevel {
    /// Executable-level configuration: files next to the executable.
    Executable,
    /// System-level configuration: files relative to a system-dependent directory, e.g. `/etc`.
    System,
    /// User-level configuration: files relative to the user's configuration directory.
    User,
    /// Local-level configuration: files relative to the home directory or the local configuration
    /// directory.
    Local,
    /// Package-level configuration: files relative to the package's manifest directory.
    Package,
    /// Instance-level configuration: files relative to the current working directory or any of its
    /// parent directories.
    Instance,
    /// Path-level configuration: files at an explicitly specified path or relative to an explicitly
    /// specified directory.
    Path,
}

impl ConfigLevel {
    /// The priority of the level: the higher, the more specific.
    pub open spec fn rank(self) -> int {
        match self {
            ConfigLevel::Executable => 0,
            ConfigLevel::System => 1,
            ConfigLevel::User => 2,
            ConfigLevel::Local => 3,
            ConfigLevel::Package => 4,
            ConfigLevel::Instance => 5,
            ConfigLevel::Path => 6,
        }
    }
}

// `FindError` ----------------------------------------------------------------------------------------------

/// Error type for the `find` functions.
#[derive(Debug)]
pub enum FindError {
    /// File not found.
    FileNotFound,
    /// Invalid file-name pattern: it holds no `{}`.
    InvalidFileNamePattern(String),
    /// An I/O error.
    Io(std::io::Error),
}

impl FindError {
    /// Returns `true` if the error should be printed: every error but [`FindError::FileNotFound`].
    pub fn should_print(&self) -> (r: bool)
        ensures
            r == !(self is FileNotFound),
    {
        !matches!(self, FindError::FileNotFound)
    }
}

// File-name pattern ----------------------------------------------------------------------------------------

/// Whether the placeholder `{}` starts at position `i` of `p`.
pub open spec fn placeholder_at(p: Seq<char>, i: int) -> bool {
    0 <= i && i + 1 < p.len() && p[i] == '{' && p[i + 1] == '}'
}

/// Whether `p` holds the placeholder `{}`.
pub open spec fn has_placeholder(p: Seq<char>) -> bool {
    exists|i: int| #[trigger] placeholder_at(p, i)
}

/// Whether `i` is the position of the first placeholder in `p`.
pub open spec fn first_placeholder_at(p: Seq<char>, i: int) -> bool {
    placeholder_at(p, i) && forall|j: int| 0 <= j < i ==> !#[trigger] placeholder_at(p, j)
}

/// The position of the first placeholder in `p`.
pub open spec fn first_placeholder(p: Seq<char>) -> int
    recommends
        has_placeholder(p),
{
    choose|i: int| first_placeholder_at(p, i)
}

/// The pattern `p` with its first placeholder, at `i`, replaced by `to`. A `.` joins `to` to the text
/// on either side of the placeholder if that text and `to` are both non-empty.
pub open spec fn substituted_at(p: Seq<char>, to: Seq<char>, i: int) -> Seq<char> {
    let ldot = if i > 0 && to.len() > 0 {
        seq!['.']
    } else {
        Seq::<char>::empty()
    };
    let rdot = if i + 2 < p.len() && to.len() > 0 {
        seq!['.']
    } else {
        Seq::<char>::empty()
    };
    p.subrange(0, i) + ldot + to + rdot + p.subrange(i + 2, p.len() as int)
}

/// The pattern `p` with its first placeholder replaced by `to`.
pub open spec fn substituted(p: Seq<char>, to: Seq<char>) -> Seq<char> {
    substituted_at(p, to, first_placeholder(p))
}

proof fn lemma_first_placeholder(p: Seq<char>, i: int)
    requires
        first_placeholder_at(p, i),
    ensures
        first_placeholder(p) == i,
        has_placeholder(p),
{
    let c = first_placeholder(p);
    assert(first_placeholder_at(p, c));
    if c < i {
        assert(!placeholder_at(p, c));
    } else if c > i {
        assert(!placeholder_at(p, i));
    }
}

/// Returns the position of the first placeholder of `pattern`, if any.
fn find_placeholder(pattern: &str) -> (r: Option<usize>)
    ensures
        match r {
            Some(i) => first_placeholder_at(pattern@, i as int),
            None => !has_placeholder(pattern@),
        },
{
    let n = pattern.unicode_len();
    let mut i: usize = 0;
    while n > 0 && i < n - 1
        invariant
            n == pattern@.len(),
            i <= n,
            forall|j: int| 0 <= j < i ==> !#[trigger] placeholder_at(pattern@, j),
        decreases n - i,
    {
        if pattern.get_char(i) == '{' && pattern.get_char(i + 1) == '}' {
            return Some(i);
        }
        i = i + 1;
    }
    proof {
        assert forall|j: int| !#[trigger] placeholder_at(pattern@, j) by {
            if 0 <= j && j >= i {
                assert(!(j + 1 < pattern@.len()) || !placeholder_at(pattern@, j));
            }
        }
    }
    None
}

/// Replaces the first `{}` of `pattern` with `to`, joined by `.` to the non-empty text on either side of
/// it if `to` is non-empty.
///
/// Fails with [`FindError::InvalidFileNamePattern`] if `pattern` holds no `{}`.
pub fn replace_in_pattern(pattern: &str, to: &str) -> (r: Result<String, FindError>)
    ensures
        has_placeholder(pattern@) ==> (r matches Ok(s) && s@ == substituted(pattern@, to@)),
        !has_placeholder(pattern@) ==> (r matches Err(FindError::InvalidFileNamePattern(p)) && p@
            == pattern@),
{
    match find_placeholder(pattern) {
        Some(index) => {
            proof {
                lemma_first_placeholder(pattern@, index as int);
                reveal_strlit(".");
            }
            let n = pattern.unicode_len();
            let nonempty = to.unicode_len() > 0;
            let mut ret = String::from_str(pattern.substring_char(0, index));
            if index > 0 && nonempty {
                ret.append(".");
            }
            ret.append(to);
            if index + 2 < n && nonempty {
                ret.append(".");
            }
            ret.append(pattern.substring_char(index + 2, n));
            proof {
                assert(ret@ =~= substituted_at(pattern@, to@, index as int));
            }
            Ok(ret)
        },
        None => Err(FindError::InvalidFileNamePattern(String::from_str(pattern))),
    }
}

} // verus!
