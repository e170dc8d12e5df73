//! The candidate paths for a configuration file, ordered from highest to lowest priority.

use vstd::prelude::*;

use crate::config::replace_in_pattern;
use crate::config::substituted;
use crate::config::ConfigLevel;
use crate::config::FindError;
use crate::config::has_placeholder;
use crate::path::join;
use crate::path::joined;
use crate::path::parent;
use crate::path::parent_of;
use crate::process::ExecType;

verus! {

// Search inputs --------------------------------------------------------------------------------------------

/// An explicitly specified search path, and whether it names an existing file.
#[derive(Clone, Debug)]
pub struct SearchPath {
    /// The path.
    pub path: String,
    /// Whether the path names an existing file (rather than a directory).
    pub is_file: bool,
}

/// The directories that the search derives candidates from.
#[derive(Clone, Debug)]
pub struct SearchDirs {
    /// The current working directory, if known.
    pub current_dir: Option<String>,
    /// The package's manifest directory, if the executable runs under the build tool.
    pub manifest_dir: Option<String>,
    /// The user's home directory, if known.
    pub home_dir: Option<String>,
    /// The user's local configuration directory, if known.
    pub config_local_dir: Option<String>,
    /// The user's configuration directory, if known.
    pub config_dir: Option<String>,
    /// The system's configuration directory, if it exists.
    pub system_config_dir: Option<String>,
    /// The invocation directory of the executable.
    pub inv_dir: String,
}

/// Relies on `dirs::home_dir`: the user's home directory, as the environment gives it.
#[verifier::external_body]
fn home_dir() -> (r: Option<String>) {
    match dirs::home_dir() {
        Some(d) => Some(d.to_string_lossy().into_owned()),
        None => None,
    }
}

/// Relies on `dirs::config_local_dir`: the user's local configuration directory, as the environment gives
/// it.
#[verifier::external_body]
fn config_local_dir() -> (r: Option<String>) {
    match dirs::config_local_dir() {
        Some(d) => Some(d.to_string_lossy().into_owned()),
        None => None,
    }
}

/// Relies on `dirs::config_dir`: the user's configuration directory, as the environment gives it.
#[verifier::external_body]
fn config_dir() -> (r: Option<String>) {
    match dirs::config_dir() {
        Some(d) => Some(d.to_string_lossy().into_owned()),
        None => None,
    }
}

impl SearchDirs {
    /// Collects the search directories: those given here, and the user's directories as the environment
    /// gives them.
    pub fn new(
        current_dir: Option<String>,
        manifest_dir: Option<String>,
        system_config_dir: Option<String>,
        inv_dir: String,
    ) -> (r: SearchDirs)
        ensures
            r.current_dir == current_dir,
            r.manifest_dir == manifest_dir,
            r.system_config_dir == system_config_dir,
            r.inv_dir == inv_dir,
    {
        SearchDirs {
            current_dir,
            manifest_dir,
            home_dir: home_dir(),
            config_local_dir: config_local_dir(),
            config_dir: config_dir(),
            system_config_dir,
            inv_dir,
        }
    }
}

// Candidate paths ------------------------------------------------------------------------------------------

/// A candidate: a configuration level and a path.
pub type Candidate = (ConfigLevel, String);

/// The view of candidates.
pub open spec fn cands_view(s: Seq<Candidate>) -> Seq<(ConfigLevel, Seq<char>)> {
    s.map_values(|c: Candidate| (c.0, c.1@))
}

/// The bare file name, e.g. `config.toml`.
pub open spec fn bare_name(p: Seq<char>) -> Seq<char> {
    substituted(p, Seq::empty())
}

/// The file name for `name`, e.g. `name.config.toml`.
pub open spec fn full_name(p: Seq<char>, name: Seq<char>) -> Seq<char> {
    substituted(p, name)
}

/// The hidden file name for `name`, e.g. `.name.config.toml`.
pub open spec fn hidden_name(p: Seq<char>, name: Seq<char>) -> Seq<char> {
    seq!['.'] + full_name(p, name)
}

/// The relative file for `name`, e.g. `name/config.toml`.
pub open spec fn relative_file(p: Seq<char>, name: Seq<char>) -> Seq<char> {
    joined(name, bare_name(p))
}

/// The hidden relative file for `name`, e.g. `.name/config.toml`.
pub open spec fn hidden_relative_file(p: Seq<char>, name: Seq<char>) -> Seq<char> {
    joined(seq!['.'] + name, bare_name(p))
}

/// The candidates of one explicit search path: the file itself, or, in the directory, the file name `f`
/// and the hidden relative file `hr`.
pub open spec fn path_entry(sp: SearchPath, f: Seq<char>, hr: Seq<char>) -> Seq<(ConfigLevel, Seq<char>)> {
    if sp.is_file {
        seq![(ConfigLevel::Path, sp.path@)]
    } else {
        seq![(ConfigLevel::Path, joined(sp.path@, f)), (ConfigLevel::Path, joined(sp.path@, hr))]
    }
}

/// The candidates at level `Path`, for each explicit search path in order.
pub open spec fn path_level(paths: Seq<SearchPath>, f: Seq<char>, hr: Seq<char>) -> Seq<
    (ConfigLevel, Seq<char>),
>
    decreases paths.len(),
{
    if paths.len() == 0 {
        Seq::empty()
    } else {
        path_level(paths.drop_last(), f, hr) + path_entry(paths.last(), f, hr)
    }
}

/// The candidates at level `Instance`: the file name `f` and the hidden relative file `hr` in `d` and in
/// each of its ancestors, nearest first.
pub open spec fn ancestors_level(d: Seq<char>, f: Seq<char>, hr: Seq<char>) -> Seq<
    (ConfigLevel, Seq<char>),
>
    decreases d.len(),
{
    let here = seq![(ConfigLevel::Instance, joined(d, f)), (ConfigLevel::Instance, joined(d, hr))];
    match parent_of(d) {
        Some(q) => if q.len() < d.len() {
            here + ancestors_level(q, f, hr)
        } else {
            here
        },
        None => here,
    }
}

/// The candidates at level `Instance`, for binaries only.
pub open spec fn instance_level(kind: ExecType, dirs: SearchDirs, f: Seq<char>, hr: Seq<char>) -> Seq<
    (ConfigLevel, Seq<char>),
> {
    match dirs.current_dir {
        Some(d) => if kind is Binary {
            ancestors_level(d@, f, hr)
        } else {
            Seq::empty()
        },
        None => Seq::empty(),
    }
}

/// Two candidates at level `Package`: `first` and `second` in the subdirectory `sub` of `m`.
pub open spec fn package_pair(m: Seq<char>, sub: Seq<char>, first: Seq<char>, second: Seq<char>) -> Seq<
    (ConfigLevel, Seq<char>),
> {
    seq![(ConfigLevel::Package, joined(joined(m, sub), first)), (ConfigLevel::Package, joined(joined(m, sub), second))]
}

/// The candidates at level `Package`, in the subdirectory of the manifest directory that suits `kind`.
pub open spec fn package_level(kind: ExecType, dirs: SearchDirs, f: Seq<char>, b: Seq<char>) -> Seq<
    (ConfigLevel, Seq<char>),
> {
    match dirs.manifest_dir {
        Some(m) => match kind {
            ExecType::Binary => package_pair(m@, "src"@, f, b) + package_pair(joined(m@, "src"@), "bin"@, f, b),
            ExecType::Example => package_pair(m@, "examples"@, f, b),
            ExecType::DocTest => package_pair(m@, "src"@, f, b),
            ExecType::UnitTest => package_pair(m@, "src"@, f, b),
            ExecType::IntegTest => package_pair(m@, "tests"@, f, b),
            ExecType::BenchTest => package_pair(m@, "benches"@, f, b),
        },
        None => Seq::empty(),
    }
}

/// The candidates at level `Local`, for binaries only: two files in the home directory and one in the
/// local configuration directory.
pub open spec fn local_level(
    kind: ExecType,
    dirs: SearchDirs,
    h: Seq<char>,
    hr: Seq<char>,
    r: Seq<char>,
) -> Seq<(ConfigLevel, Seq<char>)> {
    if kind is Binary {
        (match dirs.home_dir {
            Some(d) => seq![(ConfigLevel::Local, joined(d@, h)), (ConfigLevel::Local, joined(d@, hr))],
            None => Seq::empty(),
        }) + (match dirs.config_local_dir {
            Some(d) => seq![(ConfigLevel::Local, joined(d@, r))],
            None => Seq::empty(),
        })
    } else {
        Seq::empty()
    }
}

/// The candidates at level `User`, for binaries only.
pub open spec fn user_level(kind: ExecType, dirs: SearchDirs, r: Seq<char>) -> Seq<(ConfigLevel, Seq<char>)> {
    match dirs.config_dir {
        Some(d) => if kind is Binary {
            seq![(ConfigLevel::User, joined(d@, r))]
        } else {
            Seq::empty()
        },
        None => Seq::empty(),
    }
}

/// The candidates at level `System`, for binaries only.
pub open spec fn system_level(kind: ExecType, dirs: SearchDirs, f: Seq<char>, r: Seq<char>) -> Seq<
    (ConfigLevel, Seq<char>),
> {
    match dirs.system_config_dir {
        Some(d) => if kind is Binary {
            seq![(ConfigLevel::System, joined(d@, f)), (ConfigLevel::System, joined(d@, r))]
        } else {
            Seq::empty()
        },
        None => Seq::empty(),
    }
}

/// The candidate at level `Executable`, for binaries only.
pub open spec fn executable_level(kind: ExecType, dirs: SearchDirs, f: Seq<char>) -> Seq<
    (ConfigLevel, Seq<char>),
> {
    if kind is Binary {
        seq![(ConfigLevel::Executable, joined(dirs.inv_dir@, f))]
    } else {
        Seq::empty()
    }
}

/// All candidates, ordered from highest to lowest priority.
pub open spec fn plan(
    kind: ExecType,
    p: Seq<char>,
    name: Seq<char>,
    paths: Seq<SearchPath>,
    dirs: SearchDirs,
) -> Seq<(ConfigLevel, Seq<char>)> {
    let f = full_name(p, name);
    let b = bare_name(p);
    let h = hidden_name(p, name);
    let r = relative_file(p, name);
    let hr = hidden_relative_file(p, name);
    path_level(paths, f, hr) + instance_level(kind, dirs, f, hr) + package_level(kind, dirs, f, b)
        + local_level(kind, dirs, h, hr, r) + user_level(kind, dirs, r) + system_level(kind, dirs, f, r)
        + executable_level(kind, dirs, f)
}

/// Appends one candidate.
fn push_candidate(out: &mut Vec<Candidate>, level: ConfigLevel, path: String)
    ensures
        cands_view(final(out)@) == cands_view(old(out)@).push((level, path@)),
{
    out.push((level, path));
    assert(cands_view(out@) =~= cands_view(old(out)@).push((level, path@)));
}

/// Appends the candidates of the explicit search paths.
fn add_path_level(out: &mut Vec<Candidate>, paths: &Vec<SearchPath>, f: &str, hr: &str)
    ensures
        cands_view(final(out)@) == cands_view(old(out)@) + path_level(paths@, f@, hr@),
{
    let mut i: usize = 0;
    while i < paths.len()
        invariant
            i <= paths@.len(),
            cands_view(out@) == cands_view(old(out)@) + path_level(paths@.subrange(0, i as int), f@, hr@),
        decreases paths@.len() - i,
    {
        let sp = &paths[i];
        if sp.is_file {
            push_candidate(out, ConfigLevel::Path, sp.path.clone());
        } else {
            push_candidate(out, ConfigLevel::Path, join(&sp.path, f));
            push_candidate(out, ConfigLevel::Path, join(&sp.path, hr));
        }
        proof {
            let prefix = paths@.subrange(0, i + 1);
            assert(prefix.drop_last() =~= paths@.subrange(0, i as int));
            assert(prefix.last() == paths@[i as int]);
            assert(cands_view(out@) =~= cands_view(old(out)@) + path_level(prefix, f@, hr@));
        }
        i = i + 1;
    }
    assert(paths@.subrange(0, paths@.len() as int) =~= paths@);
}

/// Appends the candidates of `start` and each of its ancestors.
fn add_ancestors(out: &mut Vec<Candidate>, start: &String, f: &str, hr: &str)
    ensures
        cands_view(final(out)@) == cands_view(old(out)@) + ancestors_level(start@, f@, hr@),
{
    let mut dir = start.clone();
    loop
        invariant_except_break
            cands_view(out@) + ancestors_level(dir@, f@, hr@) == cands_view(old(out)@) + ancestors_level(
                start@,
                f@,
                hr@,
            ),
        ensures
            cands_view(out@) == cands_view(old(out)@) + ancestors_level(start@, f@, hr@),
        decreases dir@.len(),
    {
        let ghost before = cands_view(out@);
        let ghost d = dir@;
        let ghost here = seq![(ConfigLevel::Instance, joined(d, f@)), (ConfigLevel::Instance, joined(d, hr@))];
        push_candidate(out, ConfigLevel::Instance, join(dir.as_str(), f));
        push_candidate(out, ConfigLevel::Instance, join(dir.as_str(), hr));
        assert(cands_view(out@) =~= before + here);
        match parent(dir.as_str()) {
            Some(q) => {
                assert(ancestors_level(d, f@, hr@) == here + ancestors_level(q@, f@, hr@));
                assert(before + (here + ancestors_level(q@, f@, hr@)) =~= (before + here) + ancestors_level(q@, f@, hr@));
                dir = q;
            },
            None => {
                assert(ancestors_level(d, f@, hr@) == here);
                break ;
            },
        }
    }
}

/// Appends the two candidates `first` and `second` in the subdirectory `sub` of `m`.
fn add_package_pair(out: &mut Vec<Candidate>, m: &str, sub: &str, first: &str, second: &str)
    ensures
        cands_view(final(out)@) == cands_view(old(out)@) + package_pair(m@, sub@, first@, second@),
{
    let d = join(m, sub);
    push_candidate(out, ConfigLevel::Package, join(d.as_str(), first));
    push_candidate(out, ConfigLevel::Package, join(d.as_str(), second));
    assert(cands_view(out@) =~= cands_view(old(out)@) + package_pair(m@, sub@, first@, second@));
}

/// Appends the candidates at level `Package`.
fn add_package_level(out: &mut Vec<Candidate>, kind: ExecType, dirs: &SearchDirs, f: &str, b: &str)
    ensures
        cands_view(final(out)@) == cands_view(old(out)@) + package_level(kind, *dirs, f@, b@),
{
    if let Some(m) = &dirs.manifest_dir {
        match kind {
            ExecType::Binary => {
                let ghost start = cands_view(out@);
                add_package_pair(out, m.as_str(), "src", f, b);
                let src = join(m.as_str(), "src");
                add_package_pair(out, src.as_str(), "bin", f, b);
                assert(cands_view(out@) =~= start + package_level(kind, *dirs, f@, b@));
            },
            ExecType::Example => add_package_pair(out, m.as_str(), "examples", f, b),
            ExecType::DocTest => add_package_pair(out, m.as_str(), "src", f, b),
            ExecType::UnitTest => add_package_pair(out, m.as_str(), "src", f, b),
            ExecType::IntegTest => add_package_pair(out, m.as_str(), "tests", f, b),
            ExecType::BenchTest => add_package_pair(out, m.as_str(), "benches", f, b),
        }
    } else {
        assert(cands_view(out@) =~= cands_view(old(out)@) + package_level(kind, *dirs, f@, b@));
    }
}

/// Appends the candidates at levels `Local`, `User`, `System` and `Executable`.
fn add_binary_levels(out: &mut Vec<Candidate>, kind: ExecType, dirs: &SearchDirs, f: &str, h: &str, hr: &str, r: &str)
    ensures
        cands_view(final(out)@) == cands_view(old(out)@) + local_level(kind, *dirs, h@, hr@, r@)
            + user_level(kind, *dirs, r@) + system_level(kind, *dirs, f@, r@) + executable_level(kind, *dirs, f@),
{
    let ghost start = cands_view(out@);
    if kind == ExecType::Binary {
        if let Some(d) = &dirs.home_dir {
            push_candidate(out, ConfigLevel::Local, join(d.as_str(), h));
            push_candidate(out, ConfigLevel::Local, join(d.as_str(), hr));
        }
        if let Some(d) = &dirs.config_local_dir {
            push_candidate(out, ConfigLevel::Local, join(d.as_str(), r));
        }
        assert(cands_view(out@) =~= start + local_level(kind, *dirs, h@, hr@, r@));
        let ghost mid = cands_view(out@);
        if let Some(d) = &dirs.config_dir {
            push_candidate(out, ConfigLevel::User, join(d.as_str(), r));
        }
        assert(cands_view(out@) =~= mid + user_level(kind, *dirs, r@));
        let ghost mid2 = cands_view(out@);
        if let Some(d) = &dirs.system_config_dir {
            push_candidate(out, ConfigLevel::System, join(d.as_str(), f));
            push_candidate(out, ConfigLevel::System, join(d.as_str(), r));
        }
        assert(cands_view(out@) =~= mid2 + system_level(kind, *dirs, f@, r@));
        let ghost mid3 = cands_view(out@);
        push_candidate(out, ConfigLevel::Executable, join(dirs.inv_dir.as_str(), f));
        assert(cands_view(out@) =~= mid3 + executable_level(kind, *dirs, f@));
    }
    assert(cands_view(out@) =~= start + local_level(kind, *dirs, h@, hr@, r@) + user_level(kind, *dirs, r@)
        + system_level(kind, *dirs, f@, r@) + executable_level(kind, *dirs, f@));
}

/// Plans the candidate paths for a configuration file, ordered from highest to lowest priority, without
/// touching the file system.
///
/// Fails with [`FindError::InvalidFileNamePattern`] if `file_name_pattern` holds no `{}`.
pub fn plan_candidates(
    exec_type: ExecType,
    file_name_pattern: &str,
    name: &str,
    paths: &Vec<SearchPath>,
    dirs: &SearchDirs,
) -> (r: Result<Vec<Candidate>, FindError>)
    ensures
        has_placeholder(file_name_pattern@) ==> (r matches Ok(c) && cands_view(c@) == plan(
            exec_type,
            file_name_pattern@,
            name@,
            paths@,
            *dirs,
        )),
        !has_placeholder(file_name_pattern@) ==> (r matches Err(FindError::InvalidFileNamePattern(p))
            && p@ == file_name_pattern@),
{
    let bare_file_name = match replace_in_pattern(file_name_pattern, "") {
        Ok(s) => s,
        Err(e) => {
            return Err(e);
        },
    };
    proof {
        assert(""@ =~= Seq::<char>::empty()) by {
            reveal_strlit("");
        }
    }
    let file_name = match replace_in_pattern(file_name_pattern, name) {
        Ok(s) => s,
        Err(e) => {
            return Err(e);
        },
    };
    proof {
        reveal_strlit(".");
    }
    let mut hidden_file_name = String::from_str(".");
    hidden_file_name.append(file_name.as_str());
    let relative = join(name, bare_file_name.as_str());
    let mut hidden_dir = String::from_str(".");
    hidden_dir.append(name);
    let hidden_relative = join(hidden_dir.as_str(), bare_file_name.as_str());

    assert(has_placeholder(file_name_pattern@));
    assert(bare_file_name@ == bare_name(file_name_pattern@));
    assert(file_name@ == full_name(file_name_pattern@, name@));
    assert(hidden_file_name@ == hidden_name(file_name_pattern@, name@));
    assert(relative@ == relative_file(file_name_pattern@, name@));
    assert(hidden_dir@ =~= seq!['.'] + name@);
    assert(hidden_relative@ == hidden_relative_file(file_name_pattern@, name@));
    let f = file_name.as_str();
    let h = hidden_file_name.as_str();
    let hr = hidden_relative.as_str();
    let mut out: Vec<Candidate> = Vec::new();
    let ghost empty = cands_view(out@);
    assert(empty =~= Seq::empty());
    add_path_level(&mut out, paths, f, hr);
    let ghost s1 = cands_view(out@);
    if exec_type == ExecType::Binary {
        if let Some(d) = &dirs.current_dir {
            add_ancestors(&mut out, d, f, hr);
        }
    }
    assert(cands_view(out@) =~= s1 + instance_level(exec_type, *dirs, f@, hr@));
    add_package_level(&mut out, exec_type, dirs, f, bare_file_name.as_str());
    add_binary_levels(&mut out, exec_type, dirs, f, h, hr, relative.as_str());
    assert(cands_view(out@) =~= plan(exec_type, file_name_pattern@, name@, paths@, *dirs));
    Ok(out)
}

} // verus!
