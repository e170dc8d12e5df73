//! What holds of every search: the candidates are ordered by priority, duplicates collapse, and a search
//! fails with "file not found" exactly when nothing is found.

use vstd::prelude::*;

use crate::config::plan::ancestors_level;
use crate::config::plan::bare_name;
use crate::config::plan::executable_level;
use crate::config::plan::full_name;
use crate::config::plan::hidden_name;
use crate::config::plan::hidden_relative_file;
use crate::config::plan::instance_level;
use crate::config::plan::local_level;
use crate::config::plan::package_level;
use crate::config::plan::package_pair;
use crate::config::plan::path_entry;
use crate::config::plan::path_level;
use crate::config::plan::plan;
use crate::config::plan::relative_file;
use crate::config::plan::system_level;
use crate::config::plan::user_level;
use crate::config::plan::SearchDirs;
use crate::config::plan::SearchPath;
use crate::config::search::explains;
use crate::config::search::first_file_at;
use crate::config::search::first_with_key;
use crate::config::search::found_files;
use crate::config::search::kept_positions;
use crate::config::search::outcome;
use crate::config::plan::Candidate;
use crate::config::plan::cands_view;
use crate::config::ConfigLevel;
use crate::config::FindError;
use crate::path::joined;
use crate::path::parent_of;
use crate::process::ExecType;

verus! {

// Laws -----------------------------------------------------------------------------------------------------

/// Whether the candidates are ordered from highest to lowest priority.
pub open spec fn descending(s: Seq<(ConfigLevel, Seq<char>)>) -> bool {
    forall|i: int, j: int| 0 <= i < j < s.len() ==> (#[trigger] s[i]).0.rank() >= (#[trigger] s[j]).0.rank()
}

/// Whether every candidate of `s` is at level `l`.
spec fn all_at(s: Seq<(ConfigLevel, Seq<char>)>, l: ConfigLevel) -> bool {
    forall|i: int| 0 <= i < s.len() ==> (#[trigger] s[i]).0 == l
}

proof fn lemma_append_level(a: Seq<(ConfigLevel, Seq<char>)>, b: Seq<(ConfigLevel, Seq<char>)>, l: ConfigLevel)
    requires
        descending(a),
        forall|i: int| 0 <= i < a.len() ==> (#[trigger] a[i]).0.rank() >= l.rank(),
        all_at(b, l),
    ensures
        descending(a + b),
        forall|i: int| 0 <= i < (a + b).len() ==> (#[trigger] (a + b)[i]).0.rank() >= l.rank(),
{
    let c = a + b;
    assert forall|i: int, j: int| 0 <= i < j < c.len() implies (#[trigger] c[i]).0.rank() >= (
    #[trigger] c[j]).0.rank() by {
        if j < a.len() {
            assert(c[i] == a[i] && c[j] == a[j]);
        } else if i < a.len() {
            assert(c[i] == a[i] && c[j] == b[j - a.len()]);
        } else {
            assert(c[i] == b[i - a.len()] && c[j] == b[j - a.len()]);
        }
    }
    assert forall|i: int| 0 <= i < c.len() implies (#[trigger] c[i]).0.rank() >= l.rank() by {
        if i < a.len() {
            assert(c[i] == a[i]);
        } else {
            assert(c[i] == b[i - a.len()]);
        }
    }
}

proof fn lemma_path_level_at(paths: Seq<SearchPath>, h: Seq<char>, hr: Seq<char>)
    ensures
        all_at(path_level(paths, h, hr), ConfigLevel::Path),
    decreases paths.len(),
{
    if paths.len() > 0 {
        lemma_path_level_at(paths.drop_last(), h, hr);
        let a = path_level(paths.drop_last(), h, hr);
        let b = path_entry(paths.last(), h, hr);
        assert forall|i: int| 0 <= i < (a + b).len() implies (#[trigger] (a + b)[i]).0 == ConfigLevel::Path by {
            if i < a.len() {
                assert((a + b)[i] == a[i]);
            } else {
                assert((a + b)[i] == b[i - a.len()]);
            }
        }
    }
}

proof fn lemma_ancestors_level_at(d: Seq<char>, h: Seq<char>, hr: Seq<char>)
    ensures
        all_at(ancestors_level(d, h, hr), ConfigLevel::Instance),
    decreases d.len(),
{
    let here = seq![(ConfigLevel::Instance, joined(d, h)), (ConfigLevel::Instance, joined(d, hr))];
    if let Some(q) = parent_of(d) {
        if q.len() < d.len() {
            lemma_ancestors_level_at(q, h, hr);
            let b = ancestors_level(q, h, hr);
            assert forall|i: int| 0 <= i < (here + b).len() implies (#[trigger] (here + b)[i]).0
                == ConfigLevel::Instance by {
                if i >= 2 {
                    assert((here + b)[i] == b[i - 2]);
                }
            }
        }
    }
}

/// The planned candidates are ordered from highest to lowest priority: `Path`, `Instance`, `Package`,
/// `Local`, `User`, `System`, `Executable`.
pub proof fn lemma_plan_descending(
    kind: ExecType,
    p: Seq<char>,
    name: Seq<char>,
    paths: Seq<SearchPath>,
    dirs: SearchDirs,
)
    ensures
        descending(plan(kind, p, name, paths, dirs)),
{
    let f = full_name(p, name);
    let b = bare_name(p);
    let h = hidden_name(p, name);
    let r = relative_file(p, name);
    let hr = hidden_relative_file(p, name);
    let s0 = path_level(paths, f, hr);
    lemma_path_level_at(paths, f, hr);
    let s1 = instance_level(kind, dirs, f, hr);
    if let Some(d) = dirs.current_dir {
        lemma_ancestors_level_at(d@, f, hr);
    }
    lemma_append_level(s0, s1, ConfigLevel::Instance);
    let s2 = package_level(kind, dirs, f, b);
    assert(all_at(s2, ConfigLevel::Package)) by {
        if let Some(m) = dirs.manifest_dir {
            if kind is Binary {
                let x = package_pair(m@, "src"@, f, b);
                let y = package_pair(joined(m@, "src"@), "bin"@, f, b);
                assert forall|i: int| 0 <= i < (x + y).len() implies (#[trigger] (x + y)[i]).0 == ConfigLevel::Package by {
                    if i < x.len() {
                        assert((x + y)[i] == x[i]);
                    } else {
                        assert((x + y)[i] == y[i - x.len()]);
                    }
                }
            }
        }
    }
    lemma_append_level(s0 + s1, s2, ConfigLevel::Package);
    let s3 = local_level(kind, dirs, h, hr, r);
    assert(all_at(s3, ConfigLevel::Local)) by {
        if kind is Binary {
            let x = match dirs.home_dir {
                Some(d) => seq![(ConfigLevel::Local, joined(d@, h)), (ConfigLevel::Local, joined(d@, hr))],
                None => Seq::empty(),
            };
            let y = match dirs.config_local_dir {
                Some(d) => seq![(ConfigLevel::Local, joined(d@, r))],
                None => Seq::empty(),
            };
            assert forall|i: int| 0 <= i < (x + y).len() implies (#[trigger] (x + y)[i]).0 == ConfigLevel::Local by {
                if i < x.len() {
                    assert((x + y)[i] == x[i]);
                } else {
                    assert((x + y)[i] == y[i - x.len()]);
                }
            }
        }
    }
    lemma_append_level(s0 + s1 + s2, s3, ConfigLevel::Local);
    let s4 = user_level(kind, dirs, r);
    lemma_append_level(s0 + s1 + s2 + s3, s4, ConfigLevel::User);
    let s5 = system_level(kind, dirs, f, r);
    lemma_append_level(s0 + s1 + s2 + s3 + s4, s5, ConfigLevel::System);
    let s6 = executable_level(kind, dirs, f);
    lemma_append_level(s0 + s1 + s2 + s3 + s4 + s5, s6, ConfigLevel::Executable);
}

proof fn lemma_kept_positions(keys: Seq<Option<Seq<char>>>, n: int)
    requires
        0 <= n <= keys.len(),
    ensures
        forall|m: int|
            0 <= m < kept_positions(keys, n).len() ==> 0 <= #[trigger] kept_positions(keys, n)[m] < n
                && first_with_key(keys, kept_positions(keys, n)[m]),
        forall|q: int| 0 <= q < n && #[trigger] first_with_key(keys, q) ==> kept_positions(keys, n).contains(q),
        forall|a: int, b: int|
            0 <= a < b < kept_positions(keys, n).len() ==> #[trigger] kept_positions(keys, n)[a]
                < #[trigger] kept_positions(keys, n)[b],
    decreases n,
{
    if n > 0 {
        lemma_kept_positions(keys, n - 1);
        let kp = kept_positions(keys, n - 1);
        if first_with_key(keys, n - 1) {
            let kq = kp.push(n - 1);
            assert forall|q: int| 0 <= q < n && #[trigger] first_with_key(keys, q) implies kq.contains(q) by {
                if q < n - 1 {
                    assert(kp.contains(q));
                    let m = choose|m: int| 0 <= m < kp.len() && kp[m] == q;
                    assert(kq[m] == q);
                } else {
                    assert(kq[kp.len() as int] == q);
                }
            }
            assert forall|a: int, b: int| 0 <= a < b < kq.len() implies #[trigger] kq[a] < #[trigger] kq[b] by {
                if b < kp.len() {
                    assert(kq[a] == kp[a] && kq[b] == kp[b]);
                } else {
                    assert(kq[a] == kp[a]);
                }
            }
        }
    }
}

proof fn lemma_first_index(keys: Seq<Option<Seq<char>>>, i: int) -> (q: int)
    requires
        0 <= i < keys.len(),
        keys[i] is Some,
    ensures
        0 <= q <= i,
        keys[q] == keys[i],
        first_with_key(keys, q),
    decreases i,
{
    if exists|j: int| 0 <= j < i && #[trigger] keys[j] == keys[i] {
        let j = choose|j: int| 0 <= j < i && #[trigger] keys[j] == keys[i];
        lemma_first_index(keys, j)
    } else {
        i
    }
}

/// Duplicates collapse: of two candidates with the same canonical path, the later one is dropped, and the
/// one that is kept for that path is at least as high in priority as either. No two files found have the
/// same canonical path.
pub proof fn lemma_duplicates_collapse(
    cands: Seq<(ConfigLevel, Seq<char>)>,
    keys: Seq<Option<Seq<char>>>,
    i: int,
    j: int,
)
    requires
        descending(cands),
        keys.len() == cands.len(),
        0 <= i < j < cands.len(),
        keys[i] is Some,
        keys[i] == keys[j],
    ensures
        !kept_positions(keys, cands.len() as int).contains(j),
        exists|m: int|
            0 <= m < kept_positions(keys, cands.len() as int).len() && #[trigger] kept_positions(
                keys,
                cands.len() as int,
            )[m] <= i && keys[kept_positions(keys, cands.len() as int)[m]] == keys[i] && cands[kept_positions(
                keys,
                cands.len() as int,
            )[m]].0.rank() >= cands[j].0.rank(),
        forall|a: int, b: int|
            0 <= a < b < found_files(cands, keys).len() ==> keys[#[trigger] kept_positions(keys, cands.len() as int)[a]]
                != keys[#[trigger] kept_positions(keys, cands.len() as int)[b]],
{
    let n = cands.len() as int;
    lemma_kept_positions(keys, n);
    let kp = kept_positions(keys, n);
    if kp.contains(j) {
        let m = choose|m: int| 0 <= m < kp.len() && kp[m] == j;
        assert(first_with_key(keys, kp[m]));
        assert(keys[i] != keys[j]);
    }
    let q = lemma_first_index(keys, i);
    assert(kp.contains(q));
    let m = choose|m: int| 0 <= m < kp.len() && kp[m] == q;
    assert(cands[q].0.rank() >= cands[j].0.rank());
    assert(kp[m] <= i && keys[kp[m]] == keys[i]);
    assert forall|a: int, b: int| 0 <= a < b < found_files(cands, keys).len() implies keys[#[trigger] kp[a]]
        != keys[#[trigger] kp[b]] by {
        assert(kp[a] < kp[b]);
        assert(first_with_key(keys, kp[b]));
    }
}

/// A search for every file fails with "file not found" exactly when no candidate is an existing file with
/// a canonical path; otherwise it gives at least one file, ordered from highest to lowest priority.
pub proof fn lemma_find_all(cands: Seq<(ConfigLevel, Seq<char>)>, is_file: Seq<bool>, keys: Seq<Option<Seq<char>>>)
    requires
        descending(cands),
        keys.len() == cands.len(),
    ensures
        outcome(cands, is_file, keys, false) is None <==> forall|i: int| 0 <= i < keys.len() ==> (#[trigger] keys[i]) is None,
        outcome(cands, is_file, keys, false) matches Some(s) ==> s.len() > 0 && descending(s),
{
    let n = cands.len() as int;
    lemma_kept_positions(keys, n);
    let kp = kept_positions(keys, n);
    if exists|i: int| 0 <= i < keys.len() && (#[trigger] keys[i]) is Some {
        let i = choose|i: int| 0 <= i < keys.len() && (#[trigger] keys[i]) is Some;
        let q = lemma_first_index(keys, i);
        assert(kp.contains(q));
    } else if kp.len() > 0 {
        assert(first_with_key(keys, kp[0]));
    }
    let s = found_files(cands, keys);
    assert forall|a: int, b: int| 0 <= a < b < s.len() implies (#[trigger] s[a]).0.rank() >= (#[trigger] s[b]).0.rank() by {
        assert(kp[a] < kp[b]);
        assert(s[a] == cands[kp[a]] && s[b] == cands[kp[b]]);
    }
}

/// A quick search gives the first existing file, which is at least as high in priority as every existing
/// file; it fails with "file not found" exactly when no candidate is an existing file.
pub proof fn lemma_find_first(cands: Seq<(ConfigLevel, Seq<char>)>, is_file: Seq<bool>, keys: Seq<Option<Seq<char>>>)
    requires
        descending(cands),
        is_file.len() == cands.len(),
    ensures
        outcome(cands, is_file, keys, true) is None <==> forall|i: int| 0 <= i < is_file.len() ==> !#[trigger] is_file[i],
        outcome(cands, is_file, keys, true) matches Some(s) ==> s.len() == 1 && exists|i: int|
            #[trigger] first_file_at(is_file, i) && s[0] == cands[i],
        outcome(cands, is_file, keys, true) matches Some(s) ==> forall|i: int|
            0 <= i < is_file.len() && #[trigger] is_file[i] ==> s[0].0.rank() >= cands[i].0.rank(),
{
    if exists|i: int| 0 <= i < is_file.len() && #[trigger] is_file[i] {
        let i = choose|i: int| 0 <= i < is_file.len() && #[trigger] is_file[i];
        let q = lemma_first_file(is_file, i);
        assert(first_file_at(is_file, q));
        let c = choose|c: int| first_file_at(is_file, c);
        assert forall|k: int| 0 <= k < is_file.len() && #[trigger] is_file[k] implies cands[c].0.rank()
            >= cands[k].0.rank() by {
            if k < c {
                assert(!is_file[k]);
            }
        }
    } else {
        assert forall|c: int| !first_file_at(is_file, c) by {
            if 0 <= c < is_file.len() {
                assert(!is_file[c]);
            }
        }
    }
}

proof fn lemma_first_file(is_file: Seq<bool>, i: int) -> (q: int)
    requires
        0 <= i < is_file.len(),
        is_file[i],
    ensures
        first_file_at(is_file, q),
    decreases i,
{
    if exists|j: int| 0 <= j < i && #[trigger] is_file[j] {
        let j = choose|j: int| 0 <= j < i && #[trigger] is_file[j];
        lemma_first_file(is_file, j)
    } else {
        i
    }
}


/// What holds of the result of a search that the probes explain: a found list is non-empty and ordered from
/// highest to lowest priority; a quick search gives one file, at least as high in priority as every
/// existing file; and a full search fails with "file not found" exactly when no candidate is an existing
/// file with a canonical path.
pub proof fn lemma_search_laws(
    r: &Result<Vec<Candidate>, FindError>,
    kind: ExecType,
    pattern: Seq<char>,
    name: Seq<char>,
    paths: Seq<String>,
    dirs: SearchDirs,
    sps: Seq<SearchPath>,
    is_file: Seq<bool>,
    keys: Seq<Option<Seq<char>>>,
    find_one: bool,
    is_debug: bool,
    before: Seq<(ConfigLevel, Seq<char>, bool)>,
    after: Seq<(ConfigLevel, Seq<char>, bool)>,
)
    requires
        explains(r, kind, pattern, name, paths, dirs, sps, is_file, keys, find_one, is_debug, before, after),
    ensures
        r matches Ok(s) ==> cands_view(s@).len() > 0 && descending(cands_view(s@)),
        find_one && !is_debug ==> (r matches Ok(s) ==> cands_view(s@).len() == 1 && forall|i: int|
            0 <= i < is_file.len() && #[trigger] is_file[i] ==> cands_view(s@)[0].0.rank() >= plan(
                kind,
                pattern,
                name,
                sps,
                dirs,
            )[i].0.rank()),
        !(find_one && !is_debug) ==> (r matches Err(FindError::FileNotFound) <==> forall|i: int|
            0 <= i < keys.len() ==> (#[trigger] keys[i]) is None),
{
    let cands = plan(kind, pattern, name, sps, dirs);
    lemma_plan_descending(kind, pattern, name, sps, dirs);
    if find_one && !is_debug {
        lemma_find_first(cands, is_file, keys);
    } else {
        lemma_find_all(cands, is_file, keys);
    }
}

} // verus!
