//! Environment-related utilities: the variables that describe the running executable, published once.

use vstd::prelude::*;

use crate::process::ExecContext;
use crate::process::ExecType;

pub use crate::process::dir;
pub use crate::process::inv_dir;
pub use crate::process::inv_name;
pub use crate::process::name;
pub use crate::process::test_name_impl;

verus! {

/// The system's configuration directory on Unix.
pub const UNIX_SYSTEM_CONFIG_DIR: &'static str = "/etc";

/// Returns the path to the system's configuration directory, given the platform's candidate for it (`/etc`
/// on Unix, the value of `%PROGRAMDATA%` on Windows): the candidate if it is an existing directory, and
/// `None` otherwise.
pub fn system_config_dir(candidate: Option<&str>) -> (r: Option<String>)
    ensures
        r matches Some(d) ==> (candidate matches Some(c) && d@ == c@),
        candidate is None ==> r is None,
{
    match candidate {
        Some(c) => if crate::path::is_dir(c) {
            Some(String::from_str(c))
        } else {
            None
        },
        None => None,
    }
}

/// An environment variable: its name and its value.
pub type EnvVar = (String, String);

/// The view of environment variables.
pub open spec fn vars_view(s: Seq<EnvVar>) -> Seq<(Seq<char>, Seq<char>)> {
    s.map_values(|v: EnvVar| (v.0@, v.1@))
}

/// The environment variables that describe the executable `ctx`, in the order they are set: `dir`,
/// `home_dir` (if the home directory `home` is known), `name`, `path` and `pid` always; `inv_dir`,
/// `inv_name` and `inv_path` for binaries; `test_name` for test executables.
pub open spec fn env_table(ctx: ExecContext, home: Option<Seq<char>>, pid: Seq<char>) -> Seq<(Seq<char>, Seq<char>)> {
    seq![("dir"@, ctx.dir@)] + (match home {
        Some(h) => seq![("home_dir"@, h)],
        None => Seq::empty(),
    }) + seq![("name"@, ctx.name@), ("path"@, ctx.path@), ("pid"@, pid)] + (if ctx.exec_type is Binary {
        seq![("inv_dir"@, ctx.inv_dir@), ("inv_name"@, ctx.inv_name@), ("inv_path"@, ctx.inv_path@)]
    } else {
        Seq::empty()
    }) + (match ctx.test_name {
        Some(t) => if ctx.exec_type.spec_is_test() {
            seq![("test_name"@, t@)]
        } else {
            Seq::empty()
        },
        None => Seq::empty(),
    })
}

/// Appends one variable.
fn push_var(out: &mut Vec<EnvVar>, name: &str, val: &str)
    ensures
        vars_view(final(out)@) == vars_view(old(out)@).push((name@, val@)),
{
    out.push((String::from_str(name), String::from_str(val)));
    assert(vars_view(out@) =~= vars_view(old(out)@).push((name@, val@)));
}

/// Returns the environment variables that describe the executable `ctx`, given the home directory `home`,
/// if known, and the process ID `pid`.
pub fn env_vars(ctx: &ExecContext, home: &Option<String>, pid: &str) -> (r: Vec<EnvVar>)
    ensures
        vars_view(r@) == env_table(*ctx, crate::opt_view(*home), pid@),
{
    let mut out: Vec<EnvVar> = Vec::new();
    push_var(&mut out, "dir", ctx.dir.as_str());
    if let Some(h) = home {
        push_var(&mut out, "home_dir", h.as_str());
    }
    push_var(&mut out, "name", ctx.name.as_str());
    push_var(&mut out, "path", ctx.path.as_str());
    push_var(&mut out, "pid", pid);
    if ctx.exec_type == ExecType::Binary {
        push_var(&mut out, "inv_dir", ctx.inv_dir.as_str());
        push_var(&mut out, "inv_name", ctx.inv_name.as_str());
        push_var(&mut out, "inv_path", ctx.inv_path.as_str());
    }
    if ctx.exec_type.is_test() {
        if let Some(t) = &ctx.test_name {
            push_var(&mut out, "test_name", t.as_str());
        }
    }
    assert(vars_view(out@) =~= env_table(*ctx, crate::opt_view(*home), pid@));
    out
}

/// The state of publication and the variables to assign, after a request to publish `table` in state
/// `state`: the first request publishes the table and records it; later ones assign nothing.
pub open spec fn publish_step(
    state: Option<Seq<(Seq<char>, Seq<char>)>>,
    table: Seq<(Seq<char>, Seq<char>)>,
) -> (Option<Seq<(Seq<char>, Seq<char>)>>, Seq<(Seq<char>, Seq<char>)>) {
    match state {
        Some(t) => (Some(t), Seq::empty()),
        None => (Some(table), table),
    }
}

/// The one-time publication of the environment variables that describe the executable.
///
/// Setting environment variables is not safe while other threads read or write the environment: one
/// publisher should serve the whole process, before any other thread touches the environment.
#[derive(Debug)]
pub struct EnvPublisher {
    published: Option<Vec<EnvVar>>,
}

impl EnvPublisher {
    /// The variables published so far, if any.
    pub closed spec fn spec_published(&self) -> Option<Seq<(Seq<char>, Seq<char>)>> {
        match self.published {
            Some(v) => Some(vars_view(v@)),
            None => None,
        }
    }

    /// Creates a publisher that has published nothing.
    pub fn new() -> (r: EnvPublisher)
        ensures
            r.spec_published() is None,
    {
        EnvPublisher { published: None }
    }

    /// Returns the variables published so far, if any.
    pub fn published(&self) -> (r: Option<&Vec<EnvVar>>)
        ensures
            match r {
                Some(v) => self.spec_published() == Some(vars_view(v@)),
                None => self.spec_published() is None,
            },
    {
        match &self.published {
            Some(v) => Some(v),
            None => None,
        }
    }

    /// Returns the variables to assign: on the first call, those that describe the executable `ctx`,
    /// which are then recorded; on later calls, none.
    pub fn publish_once(&mut self, ctx: &ExecContext, home: &Option<String>, pid: &str) -> (r: Vec<EnvVar>)
        ensures
            (final(self).spec_published(), vars_view(r@)) == publish_step(
                old(self).spec_published(),
                env_table(*ctx, crate::opt_view(*home), pid@),
            ),
    {
        if self.published.is_some() {
            let r: Vec<EnvVar> = Vec::new();
            assert(vars_view(r@) =~= Seq::empty());
            return r;
        }
        let vars = env_vars(ctx, home, pid);
        let mut recorded: Vec<EnvVar> = Vec::new();
        let mut i: usize = 0;
        while i < vars.len()
            invariant
                i <= vars@.len(),
                vars_view(recorded@) =~= vars_view(vars@).subrange(0, i as int),
            decreases vars@.len() - i,
        {
            let v = &vars[i];
            push_var(&mut recorded, v.0.as_str(), v.1.as_str());
            i = i + 1;
        }
        self.published = Some(recorded);
        vars
    }
}

/// Publication happens once: whatever was requested before, after a first request the variables are
/// published, and a second request assigns nothing and leaves the published variables as they were, so
/// that both requests observe the same published variables.
pub proof fn lemma_publish_once(
    state: Option<Seq<(Seq<char>, Seq<char>)>>,
    first: Seq<(Seq<char>, Seq<char>)>,
    second: Seq<(Seq<char>, Seq<char>)>,
)
    ensures
        publish_step(state, first).0 is Some,
        publish_step(publish_step(state, first).0, second).1.len() == 0,
        publish_step(publish_step(state, first).0, second).0 == publish_step(state, first).0,
        state is None ==> publish_step(state, first).1 == first && publish_step(state, first).0 == Some(first),
{
}

} // verus!
