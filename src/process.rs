//! Process-related utilities: the kind of the running executable and the names derived from its paths.

use vstd::prelude::*;

use crate::opt_view;
use crate::path::file_name;
use crate::path::file_name_of;
use crate::path::parent;
use crate::path::parent_of;

verus! {

/// An enum for the type of the Rust executable.
#[derive(Clone, Copy, Debug, PartialEq, Eq, Structural)]
pub enum ExecType {
    /// A standard binary executable.
    Binary,
    /// An example executable.
    Example,
    /// A doc-test executable.
    DocTest,
    /// A unit-test executable.
    UnitTest,
    /// An integration-test executable.
    IntegTest,
    /// A benchmark-test executable.
    BenchTest,
}

impl ExecType {
    /// Whether the executable type denotes a test executable.
    pub open spec fn spec_is_test(self) -> bool {
        !(self is Binary || self is Example)
    }

    /// Returns `true` if the executable type denotes a test executable.
    pub fn is_test(&self) -> (r: bool)
        ensures
            r == self.spec_is_test(),
    {
        !matches!(self, ExecType::Binary | ExecType::Example)
    }
}

// Names ----------------------------------------------------------------------------------------------------

/// The canonical name of a doc-test executable, which is its test name as it stands.
pub const DOC_TEST_NAME: &'static str = "rust_out";

/// The suffix that the build tool gives the names of test executables: `-` and 16 hexadecimal digits.
pub const TEST_NAME_SUFFIX: &'static str = "-[0-9a-f]{16}$";

/// The number of characters in the suffix of a test executable's name.
pub const TEST_NAME_SUFFIX_LEN: usize = 17;

/// Whether the regular expression `pattern` matches somewhere in `text`.
pub uninterp spec fn regex_matches(pattern: Seq<char>, text: Seq<char>) -> bool;

/// Relies on `regex::Regex::new` and `regex::Regex::is_match`: `None` if `pattern` is not a valid regular
/// expression, otherwise whether it matches somewhere in `text`. The suffix pattern of test executables is
/// a valid regular expression.
#[verifier::external_body]
fn regex_is_match(pattern: &str, text: &str) -> (r: Option<bool>)
    ensures
        r matches Some(b) ==> b == regex_matches(pattern@, text@),
        pattern@ == TEST_NAME_SUFFIX@ ==> r is Some,
{
    match regex::Regex::new(pattern) {
        Ok(re) => Some(re.is_match(text)),
        Err(_) => None,
    }
}

/// Returns the canonical path of the executable, from its invocation path `inv_path`, as the file system
/// gives it: an absolute path, so not empty; `None` if it cannot be had.
pub fn path(inv_path: &str) -> (r: Option<String>)
    ensures
        r matches Some(p) ==> p@.len() > 0,
{
    crate::path::canonicalize(inv_path)
}

/// Returns the canonical directory of the executable: the parent of its canonical path `path`, which must
/// have one.
pub fn dir(path: &str) -> (r: String)
    requires
        parent_of(path@) is Some,
    ensures
        parent_of(path@) == Some(r@),
{
    match parent(path) {
        Some(d) => d,
        None => String::new(),
    }
}

/// Returns the invocation directory of the executable: the parent of its invocation path `inv_path`, which
/// must have one.
pub fn inv_dir(inv_path: &str) -> (r: String)
    requires
        parent_of(inv_path@) is Some,
    ensures
        parent_of(inv_path@) == Some(r@),
{
    match parent(inv_path) {
        Some(d) => d,
        None => String::new(),
    }
}

/// Returns the canonical name of the executable: the file name of its canonical path `path`, or `None` if
/// the path has none.
pub fn name(path: &str) -> (r: Option<String>)
    ensures
        opt_view(r) == file_name_of(path@),
{
    file_name(path)
}

/// Returns the invocation name of the executable: the file name of its invocation path `inv_path`, or
/// `None` if the path has none.
pub fn inv_name(inv_path: &str) -> (r: Option<String>)
    ensures
        opt_view(r) == file_name_of(inv_path@),
{
    file_name(inv_path)
}

/// The test name for the canonical name `name`, given whether `name` ends in the suffix of a test
/// executable: the doc-test name as it stands, or `name` without its suffix; `None` if `name` is not a
/// valid test-executable name.
pub open spec fn test_name_of(name: Seq<char>, suffixed: bool) -> Option<Seq<char>> {
    if name == DOC_TEST_NAME@ {
        Some(name)
    } else if suffixed && name.len() >= TEST_NAME_SUFFIX_LEN {
        Some(name.subrange(0, name.len() - TEST_NAME_SUFFIX_LEN))
    } else {
        None
    }
}

/// Returns whether two strings hold the same text.
fn same_text(a: &str, b: &str) -> (r: bool)
    ensures
        r == (a@ == b@),
{
    String::from_str(a) == String::from_str(b)
}

/// Derives the test name from the canonical name `name`, given whether `name` ends in `-` and 16
/// hexadecimal digits: the doc-test name `rust_out` passes as it stands, a suffixed name loses its
/// suffix, and any other name gives `None`.
pub fn test_name_from(name: &str, suffixed: bool) -> (r: Option<String>)
    ensures
        opt_view(r) == test_name_of(name@, suffixed),
{
    if same_text(name, DOC_TEST_NAME) {
        return Some(String::from_str(name));
    }
    let n = name.unicode_len();
    if suffixed && n >= TEST_NAME_SUFFIX_LEN {
        Some(String::from_str(name.substring_char(0, n - TEST_NAME_SUFFIX_LEN)))
    } else {
        None
    }
}

/// Derives the test name from the canonical name `name` of a test executable: `rust_out` passes as it
/// stands, and a name that ends in `-` and 16 hexadecimal digits loses that suffix.
///
/// Any other name is not a valid test-executable name. For such a name the result is `None`, so that the
/// caller decides how to fail; a caller that needs a test name treats `None` as a broken invariant.
pub fn test_name_impl(name: &str) -> (r: Option<String>)
    ensures
        opt_view(r) == test_name_of(name@, regex_matches(TEST_NAME_SUFFIX@, name@)),
{
    if same_text(name, DOC_TEST_NAME) {
        return test_name_from(name, false);
    }
    match regex_is_match(TEST_NAME_SUFFIX, name) {
        Some(suffixed) => test_name_from(name, suffixed),
        None => None,
    }
}

// `ExecContext` --------------------------------------------------------------------------------------------

/// A description of the running executable: its kind, its paths, and the directories and names derived
/// from them.
#[derive(Debug)]
pub struct ExecContext {
    /// The kind of the executable.
    pub exec_type: ExecType,
    /// The invocation path, as the executable was started.
    pub inv_path: String,
    /// The canonical path.
    pub path: String,
    /// The invocation directory.
    pub inv_dir: String,
    /// The canonical directory.
    pub dir: String,
    /// The invocation name.
    pub inv_name: String,
    /// The canonical name.
    pub name: String,
    /// The test name, for test executables.
    pub test_name: Option<String>,
}

impl ExecContext {
    /// Whether the context describes an executable of kind `exec_type` with the invocation path
    /// `inv_path` and the canonical path `path`.
    pub open spec fn describes(self, exec_type: ExecType, inv_path: Seq<char>, path: Seq<char>) -> bool {
        &&& self.exec_type == exec_type
        &&& self.inv_path@ == inv_path
        &&& self.path@ == path
        &&& parent_of(inv_path) == Some(self.inv_dir@)
        &&& parent_of(path) == Some(self.dir@)
        &&& file_name_of(inv_path) == Some(self.inv_name@)
        &&& file_name_of(path) == Some(self.name@)
        &&& exec_type.spec_is_test() ==> self.test_name is Some
        &&& !exec_type.spec_is_test() ==> self.test_name is None
        &&& exec_type.spec_is_test() ==> opt_view(self.test_name) == test_name_of(
            self.name@,
            regex_matches(TEST_NAME_SUFFIX@, self.name@),
        )
    }

    /// Derives the context of an executable of kind `exec_type` from its invocation path and its canonical
    /// path.
    ///
    /// Gives `None` if a path has no parent or no file name, or if a test executable has no valid test
    /// name.
    pub fn new(exec_type: ExecType, inv_path: String, path: String) -> (r: Option<ExecContext>)
        ensures
            r matches Some(c) ==> c.describes(exec_type, inv_path@, path@),
            r is None <==> parent_of(inv_path@) is None || parent_of(path@) is None || file_name_of(
                inv_path@,
            ) is None || file_name_of(path@) is None || (exec_type.spec_is_test() && test_name_of(
                file_name_of(path@)->0,
                regex_matches(TEST_NAME_SUFFIX@, file_name_of(path@)->0),
            ) is None),
    {
        let inv_dir = match parent(inv_path.as_str()) {
            Some(_) => inv_dir(inv_path.as_str()),
            None => {
                return None;
            },
        };
        let dir = match parent(path.as_str()) {
            Some(_) => dir(path.as_str()),
            None => {
                return None;
            },
        };
        let inv_name = match inv_name(inv_path.as_str()) {
            Some(n) => n,
            None => {
                return None;
            },
        };
        let name = match name(path.as_str()) {
            Some(n) => n,
            None => {
                return None;
            },
        };
        let test_name = if exec_type.is_test() {
            match test_name_impl(name.as_str()) {
                Some(t) => Some(t),
                None => {
                    return None;
                },
            }
        } else {
            None
        };
        Some(ExecContext { exec_type, inv_path, path, inv_dir, dir, inv_name, name, test_name })
    }

    /// Derives the context of an executable of kind `exec_type` from its invocation path, looking up its
    /// canonical path in the file system.
    ///
    /// Gives `None` if the canonical path cannot be had, or as [`ExecContext::new`] does.
    pub fn from_invocation(exec_type: ExecType, inv_path: String) -> (r: Option<ExecContext>)
        ensures
            r matches Some(c) ==> c.describes(exec_type, inv_path@, c.path@) && c.path@.len() > 0,
    {
        match path(inv_path.as_str()) {
            Some(p) => ExecContext::new(exec_type, inv_path, p),
            None => None,
        }
    }

    /// The name that configuration files are searched for: the invocation name of a binary, the canonical
    /// name of an example, and the test name of a test executable.
    pub open spec fn spec_search_name(self) -> Seq<char> {
        match self.exec_type {
            ExecType::Binary => self.inv_name@,
            ExecType::Example => self.name@,
            _ => match self.test_name {
                Some(t) => t@,
                None => self.name@,
            },
        }
    }

    /// Returns the name that configuration files are searched for: the invocation name of a binary, the
    /// canonical name of an example, and the test name of a test executable.
    pub fn search_name(&self) -> (r: &str)
        ensures
            r@ == self.spec_search_name(),
    {
        match self.exec_type {
            ExecType::Binary => self.inv_name.as_str(),
            ExecType::Example => self.name.as_str(),
            _ => match &self.test_name {
                Some(t) => t.as_str(),
                None => self.name.as_str(),
            },
        }
    }
}

} // verus!
