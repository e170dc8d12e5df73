//! Probing the candidate paths and choosing the existing files among them.

use vstd::prelude::*;

use crate::collections::uvec::extended;
use crate::collections::uvec::has_key;
use crate::collections::KeyFn;
use crate::collections::Uvec;
use crate::config::has_placeholder;
use crate::config::plan::cands_view;
use crate::config::plan::plan;
use crate::config::plan::plan_candidates;
use crate::config::plan::Candidate;
use crate::config::plan::SearchDirs;
use crate::config::plan::SearchPath;
use crate::config::ConfigLevel;
use crate::config::FindError;
use crate::opt_view;
use crate::process::ExecType;

verus! {

// Choosing the existing files ------------------------------------------------------------------------------

/// Whether the candidate at position `i` is the first one with its key, and has a key.
pub open spec fn first_with_key(keys: Seq<Option<Seq<char>>>, i: int) -> bool {
    &&& keys[i] is Some
    &&& forall|j: int| 0 <= j < i ==> keys[j] != #[trigger] keys[i]
}

/// The positions below `n` of the candidates that are the first with their key, in order.
pub open spec fn kept_positions(keys: Seq<Option<Seq<char>>>, n: int) -> Seq<int>
    decreases n,
{
    if n <= 0 {
        Seq::empty()
    } else if first_with_key(keys, n - 1) {
        kept_positions(keys, n - 1).push(n - 1)
    } else {
        kept_positions(keys, n - 1)
    }
}

/// The existing files among the candidates `cands`, without duplicates: each candidate whose key (its
/// canonical path, if it is an existing file) no candidate before it has.
pub open spec fn found_files(cands: Seq<(ConfigLevel, Seq<char>)>, keys: Seq<Option<Seq<char>>>) -> Seq<
    (ConfigLevel, Seq<char>),
> {
    kept_positions(keys, cands.len() as int).map_values(|i: int| cands[i])
}

/// Whether the candidate at position `i` is the first existing file.
pub open spec fn first_file_at(is_file: Seq<bool>, i: int) -> bool {
    &&& 0 <= i < is_file.len()
    &&& is_file[i]
    &&& forall|j: int| 0 <= j < i ==> !#[trigger] is_file[j]
}

/// The result of a search over the candidates `cands`, given which of them are existing files and their
/// keys: `None` if no file is found.
///
/// A quick search gives the first existing file. Otherwise the search gives every existing file, without
/// duplicates.
pub open spec fn outcome(
    cands: Seq<(ConfigLevel, Seq<char>)>,
    is_file: Seq<bool>,
    keys: Seq<Option<Seq<char>>>,
    quick: bool,
) -> Option<Seq<(ConfigLevel, Seq<char>)>> {
    if quick {
        if exists|i: int| first_file_at(is_file, i) {
            Some(seq![cands[choose|i: int| first_file_at(is_file, i)]])
        } else {
            None
        }
    } else if found_files(cands, keys).len() > 0 {
        Some(found_files(cands, keys))
    } else {
        None
    }
}

/// Whether `r` is the result of a search over `cands`, given which of them are existing files and their
/// keys; only existing files have keys.
pub open spec fn resolves_to(
    r: &Result<Vec<Candidate>, FindError>,
    cands: Seq<(ConfigLevel, Seq<char>)>,
    is_file: Seq<bool>,
    keys: Seq<Option<Seq<char>>>,
    quick: bool,
) -> bool {
    &&& is_file.len() == cands.len()
    &&& keys.len() == cands.len()
    &&& forall|i: int| 0 <= i < keys.len() && (#[trigger] keys[i]) is Some ==> is_file[i]
    &&& match outcome(cands, is_file, keys, quick) {
        Some(s) => r matches Ok(v) && cands_view(v@) == s,
        None => r matches Err(FindError::FileNotFound),
    }
}

/// What probing a candidate found: whether it is an existing file, and its canonical path.
#[derive(Debug)]
pub struct Probe {
    /// Whether the candidate names an existing file.
    pub is_file: bool,
    /// The canonical path of the candidate, if it could be had.
    pub canonical: Option<String>,
}

/// The key of a probed candidate: its canonical path, if it is an existing file.
pub open spec fn probe_key(p: Probe) -> Option<Seq<char>> {
    if p.is_file {
        opt_view(p.canonical)
    } else {
        None
    }
}

/// A probed candidate.
struct Found {
    level: ConfigLevel,
    path: String,
    key: Option<String>,
}

/// The key-generating function for probed candidates: their canonical paths, for existing files.
struct FoundKey;

impl KeyFn<String, Found> for FoundKey {
    closed spec fn spec_key(&self, v: Found) -> Option<Seq<char>> {
        opt_view(v.key)
    }

    fn key(&self, v: &Found) -> (r: Option<String>) {
        match &v.key {
            Some(k) => Some(k.clone()),
            None => None,
        }
    }
}

/// Whether the probed candidates `items` stand for the candidates `cands` with keys `keys`.
spec fn stands_for(items: Seq<Found>, cands: Seq<(ConfigLevel, Seq<char>)>, keys: Seq<Option<Seq<char>>>) -> bool {
    &&& items.len() <= cands.len()
    &&& items.len() <= keys.len()
    &&& forall|i: int|
        0 <= i < items.len() ==> (#[trigger] items[i]).level == cands[i].0 && items[i].path@ == cands[i].1
            && opt_view(items[i].key) == keys[i]
}

proof fn lemma_found_files(items: Seq<Found>, cands: Seq<(ConfigLevel, Seq<char>)>, keys: Seq<Option<Seq<char>>>)
    requires
        stands_for(items, cands, keys),
    ensures
        extended(FoundKey, Seq::empty(), items).map_values(|f: Found| (f.level, f.path@))
            == kept_positions(keys, items.len() as int).map_values(|i: int| cands[i]),
        forall|k: Seq<char>|
            has_key(FoundKey, extended(FoundKey, Seq::empty(), items), k) <==> exists|j: int|
                0 <= j < items.len() && #[trigger] keys[j] == Some(k),
    decreases items.len(),
{
    let n = items.len() as int;
    if n > 0 {
        let prev = items.drop_last();
        lemma_found_files(prev, cands, keys);
        let d = extended(FoundKey, Seq::empty(), prev);
        let v = items.last();
        assert(items[n - 1] == v);
        let kp = kept_positions(keys, n - 1);
        assert(FoundKey.spec_key(v) == keys[n - 1]);
        if first_with_key(keys, n - 1) {
            let k = keys[n - 1]->0;
            if has_key(FoundKey, d, k) {
                let j = choose|j: int| 0 <= j < prev.len() && #[trigger] keys[j] == Some(k);
                assert(keys[j] != keys[n - 1]);
            }
            assert(extended(FoundKey, Seq::empty(), items) == d.push(v));
            assert(d.push(v).map_values(|f: Found| (f.level, f.path@)) =~= d.map_values(
                |f: Found| (f.level, f.path@),
            ).push((v.level, v.path@)));
            assert(kp.push(n - 1).map_values(|i: int| cands[i]) =~= kp.map_values(|i: int| cands[i]).push(
                cands[n - 1],
            ));
            assert forall|k2: Seq<char>|
                has_key(FoundKey, d.push(v), k2) <==> exists|j: int|
                    0 <= j < items.len() && #[trigger] keys[j] == Some(k2) by {
                if has_key(FoundKey, d.push(v), k2) {
                    let w = choose|w: int| 0 <= w < d.push(v).len() && FoundKey.spec_key(#[trigger] d.push(v)[w]) == Some(k2);
                    if w < d.len() {
                        assert(d.push(v)[w] == d[w]);
                        assert(has_key(FoundKey, d, k2));
                        let j = choose|j: int| 0 <= j < prev.len() && #[trigger] keys[j] == Some(k2);
                        assert(keys[j] == Some(k2));
                    } else {
                        assert(keys[n - 1] == Some(k2));
                    }
                }
                if exists|j: int| 0 <= j < items.len() && #[trigger] keys[j] == Some(k2) {
                    let j = choose|j: int| 0 <= j < items.len() && #[trigger] keys[j] == Some(k2);
                    if j < n - 1 {
                        assert(keys[j] == Some(k2));
                        assert(has_key(FoundKey, d, k2));
                        let w = choose|w: int| 0 <= w < d.len() && FoundKey.spec_key(#[trigger] d[w]) == Some(k2);
                        assert(d.push(v)[w] == d[w]);
                    } else {
                        assert(d.push(v)[d.len() as int] == v);
                    }
                }
            }
        } else {
            if keys[n - 1] is Some {
                let j = choose|j: int| 0 <= j < n - 1 && #[trigger] keys[j] == keys[n - 1];
                assert(keys[j] == keys[n - 1]);
                assert(has_key(FoundKey, d, keys[n - 1]->0));
            }
            assert(extended(FoundKey, Seq::empty(), items) == d);
            assert forall|k2: Seq<char>|
                has_key(FoundKey, d, k2) <==> exists|j: int|
                    0 <= j < items.len() && #[trigger] keys[j] == Some(k2) by {
                if exists|j: int| 0 <= j < items.len() && #[trigger] keys[j] == Some(k2) {
                    let j = choose|j: int| 0 <= j < items.len() && #[trigger] keys[j] == Some(k2);
                    if j == n - 1 {
                        let i = choose|i: int| 0 <= i < n - 1 && #[trigger] keys[i] == keys[n - 1];
                        assert(keys[i] == Some(k2));
                    } else {
                        assert(keys[j] == Some(k2));
                    }
                }
            }
        }
    } else {
        assert(extended(FoundKey, Seq::empty(), items).map_values(|f: Found| (f.level, f.path@)) =~= Seq::empty());
    }
}

/// Chooses the existing files among the probed candidates: each candidate that is an existing file, unless
/// an earlier one has the same canonical path. The candidates keep their order.
///
/// Fails with [`FindError::FileNotFound`] if there is none.
pub fn select_files(cands: &Vec<Candidate>, probes: &Vec<Probe>) -> (r: Result<Vec<Candidate>, FindError>)
    requires
        probes@.len() == cands@.len(),
    ensures
        resolves_to(&r, cands_view(cands@), probes@.map_values(|p: Probe| p.is_file), probes@.map_values(|p: Probe| probe_key(p)), false),
{
    let ghost cv = cands_view(cands@);
    let ghost keys = probes@.map_values(|p: Probe| probe_key(p));
    let mut files = Uvec::with_key(FoundKey);
    let ghost mut items: Seq<Found> = Seq::empty();
    let mut i: usize = 0;
    while i < cands.len()
        invariant
            i <= cands@.len(),
            probes@.len() == cands@.len(),
            cv == cands_view(cands@),
            keys == probes@.map_values(|p: Probe| probe_key(p)),
            files.wf(),
            files.key_fn() == FoundKey,
            items.len() == i,
            stands_for(items, cv, keys),
            files@ == extended(FoundKey, Seq::empty(), items),
        decreases cands@.len() - i,
    {
        let probe = &probes[i];
        let key = if probe.is_file {
            match &probe.canonical {
                Some(c) => Some(c.clone()),
                None => None,
            }
        } else {
            None
        };
        let found = Found { level: cands[i].0, path: cands[i].1.clone(), key };
        let ghost old_items = items;
        proof {
            assert(keys[i as int] == probe_key(probes@[i as int]));
            assert(cv[i as int] == (cands@[i as int].0, cands@[i as int].1@));
            items = items.push(found);
            assert(items.drop_last() =~= old_items);
        }
        files.push(found);
        proof {
            assert(items.last() == found);
            assert(extended(FoundKey, Seq::empty(), items) == crate::collections::uvec::pushed(
                FoundKey,
                extended(FoundKey, Seq::empty(), old_items),
                found,
            ));
        }
        i = i + 1;
    }
    proof {
        lemma_found_files(items, cv, keys);
    }
    let v = files.into_vec();
    let mut out: Vec<Candidate> = Vec::new();
    let mut j: usize = 0;
    while j < v.len()
        invariant
            j <= v@.len(),
            cands_view(out@) =~= v@.subrange(0, j as int).map_values(|f: Found| (f.level, f.path@)),
        decreases v@.len() - j,
    {
        let f = &v[j];
        out.push((f.level, f.path.clone()));
        proof {
            assert(v@.subrange(0, j + 1).map_values(|f: Found| (f.level, f.path@)) =~= v@.subrange(
                0,
                j as int,
            ).map_values(|f: Found| (f.level, f.path@)).push((v@[j as int].level, v@[j as int].path@)));
            assert(cands_view(out@) =~= cands_view(out@.drop_last()).push((f.level, f.path@)));
        }
        j = j + 1;
    }
    proof {
        assert(v@.subrange(0, v@.len() as int) =~= v@);
        assert(cands_view(out@) == found_files(cv, keys));
    }
    if out.len() == 0 {
        Err(FindError::FileNotFound)
    } else {
        Ok(out)
    }
}

// Searching ------------------------------------------------------------------------------------------------

/// A record of the trace of a search: a probed candidate's level and path, and whether the path names an
/// existing file.
pub type TraceRecord = (ConfigLevel, String, bool);

/// The view of trace records.
pub open spec fn trace_view(s: Seq<TraceRecord>) -> Seq<(ConfigLevel, Seq<char>, bool)> {
    s.map_values(|t: TraceRecord| (t.0, t.1@, t.2))
}

/// The trace of probing every candidate of `cands`, given which of them are existing files.
pub open spec fn trace_of(cands: Seq<(ConfigLevel, Seq<char>)>, is_file: Seq<bool>) -> Seq<
    (ConfigLevel, Seq<char>, bool),
> {
    Seq::new(cands.len(), |i: int| (cands[i].0, cands[i].1, is_file[i]))
}

/// Whether `r` is the result of a search for `name` with `pattern` over `paths` and `dirs`, given which
/// explicit paths name files (`sps`), which candidates are existing files, and their keys; and whether the
/// trace went from `before` to `after`: in debug mode, every planned candidate is traced in order, and
/// otherwise nothing is.
pub open spec fn explains(
    r: &Result<Vec<Candidate>, FindError>,
    kind: ExecType,
    pattern: Seq<char>,
    name: Seq<char>,
    paths: Seq<String>,
    dirs: SearchDirs,
    sps: Seq<SearchPath>,
    is_file: Seq<bool>,
    keys: Seq<Option<Seq<char>>>,
    find_one: bool,
    is_debug: bool,
    before: Seq<(ConfigLevel, Seq<char>, bool)>,
    after: Seq<(ConfigLevel, Seq<char>, bool)>,
) -> bool {
    &&& sps.len() == paths.len()
    &&& forall|i: int| 0 <= i < sps.len() ==> (#[trigger] sps[i]).path@ == paths[i]@
    &&& resolves_to(r, plan(kind, pattern, name, sps, dirs), is_file, keys, find_one && !is_debug)
    &&& after == if is_debug {
        before + trace_of(plan(kind, pattern, name, sps, dirs), is_file)
    } else {
        before
    }
}

/// Finds configuration files: plans the candidates and probes them in order of priority.
///
/// With `find_one` and without `is_debug`, the search stops at the first existing file. Otherwise every
/// candidate is probed, and each existing file is given unless an earlier candidate has the same canonical
/// path. With `is_debug`, each probed candidate is appended to `trace`, in order; otherwise `trace` stays as
/// it is.
///
/// Fails with [`FindError::InvalidFileNamePattern`] if `file_name_pattern` holds no `{}`, before any probe,
/// and with [`FindError::FileNotFound`] if no file is found.
pub fn find_config_files_impl(
    find_one: bool,
    exec_type: ExecType,
    file_name_pattern: &str,
    is_debug: bool,
    name: &str,
    paths: &Vec<String>,
    dirs: &SearchDirs,
    trace: &mut Vec<TraceRecord>,
) -> (r: Result<Vec<Candidate>, FindError>)
    ensures
        !has_placeholder(file_name_pattern@) ==> (r matches Err(FindError::InvalidFileNamePattern(p))
            && p@ == file_name_pattern@) && final(trace)@ == old(trace)@,
        has_placeholder(file_name_pattern@) ==> exists|
            sps: Seq<SearchPath>,
            is_file: Seq<bool>,
            keys: Seq<Option<Seq<char>>>,
        |
            #[trigger] explains(
                &r,
                exec_type,
                file_name_pattern@,
                name@,
                paths@,
                *dirs,
                sps,
                is_file,
                keys,
                find_one,
                is_debug,
                trace_view(old(trace)@),
                trace_view(final(trace)@),
            ),
        r matches Ok(s) ==> cands_view(s@).len() > 0 && crate::config::laws::descending(cands_view(s@)),
{
    let mut sps: Vec<SearchPath> = Vec::new();
    let mut i: usize = 0;
    while i < paths.len()
        invariant
            i <= paths@.len(),
            sps@.len() == i,
            forall|j: int| 0 <= j < i ==> (#[trigger] sps@[j]).path@ == paths@[j]@,
        decreases paths@.len() - i,
    {
        let p = &paths[i];
        sps.push(SearchPath { path: p.clone(), is_file: crate::path::is_file(p.as_str()) });
        i = i + 1;
    }
    let cands = match plan_candidates(exec_type, file_name_pattern, name, &sps, dirs) {
        Ok(c) => c,
        Err(e) => {
            return Err(e);
        },
    };
    let ghost cv = cands_view(cands@);
    let quick = find_one && !is_debug;
    let mut probes: Vec<Probe> = Vec::new();
    let mut k: usize = 0;
    while k < cands.len()
        invariant
            k <= cands@.len(),
            cv == cands_view(cands@),
            cv == plan(exec_type, file_name_pattern@, name@, sps@, *dirs),
            has_placeholder(file_name_pattern@),
            sps@.len() == paths@.len(),
            forall|j: int| 0 <= j < sps@.len() ==> (#[trigger] sps@[j]).path@ == paths@[j]@,
            quick == (find_one && !is_debug),
            probes@.len() == k,
            quick ==> forall|j: int| 0 <= j < k ==> !(#[trigger] probes@[j]).is_file && probes@[j].canonical is None,
            forall|j: int| 0 <= j < k && (#[trigger] probes@[j]).canonical is Some ==> probes@[j].is_file,
            is_debug ==> trace_view(trace@) =~= trace_view(old(trace)@) + Seq::new(
                k as nat,
                |j: int| (cv[j].0, cv[j].1, probes@[j].is_file),
            ),
            !is_debug ==> trace@ == old(trace)@,
        decreases cands@.len() - k,
    {
        let level = cands[k].0;
        let path = &cands[k].1;
        let f = crate::path::is_file(path.as_str());
        let ghost t0 = trace@;
        if is_debug {
            trace.push((level, path.clone(), f));
            assert(trace_view(trace@) =~= trace_view(t0).push((level, path@, f)));
        }
        if quick && f {
            let mut one: Vec<Candidate> = Vec::new();
            one.push((level, path.clone()));
            let ghost is_file = probes@.map_values(|p: Probe| p.is_file).push(true) + Seq::new(
                (cands@.len() - k - 1) as nat,
                |j: int| false,
            );
            let ghost keys = Seq::new(cands@.len() as nat, |j: int| None::<Seq<char>>);
            let r = Ok(one);
            proof {
                assert(is_file.len() == cv.len());
                assert(is_file[k as int]);
                assert forall|j: int| 0 <= j < k implies !#[trigger] is_file[j] by {
                    assert(is_file[j] == probes@[j].is_file);
                    assert(!probes@[j].is_file);
                }
                assert(first_file_at(is_file, k as int));
                let c = choose|c: int| first_file_at(is_file, c);
                if c < k {
                    assert(!is_file[c]);
                } else if c > k {
                    assert(!is_file[k as int]);
                }
                assert(c == k);
                assert(cands_view(one@) =~= seq![cv[k as int]]);
                assert(outcome(cv, is_file, keys, quick) == Some(seq![cv[k as int]]));
                assert(resolves_to(&r, cv, is_file, keys, quick));
                assert(explains(&r, exec_type, file_name_pattern@, name@, paths@, *dirs, sps@, is_file, keys, find_one, is_debug, trace_view(old(trace)@), trace_view(trace@)));
                crate::config::laws::lemma_search_laws(&r, exec_type, file_name_pattern@, name@, paths@, *dirs, sps@, is_file, keys, find_one, is_debug, trace_view(old(trace)@), trace_view(trace@));
            }
            return r;
        }
        let canonical = if f && !quick {
            crate::path::canonicalize(path.as_str())
        } else {
            None
        };
        let ghost p0 = probes@;
        probes.push(Probe { is_file: f, canonical });
        proof {
            assert(cv[k as int] == (level, path@));
            if is_debug {
                assert forall|j: int| 0 <= j < k implies (#[trigger] probes@[j]).is_file == p0[j].is_file by {}
                assert(trace_view(trace@) =~= trace_view(old(trace)@) + Seq::new(
                    (k + 1) as nat,
                    |j: int| (cv[j].0, cv[j].1, probes@[j].is_file),
                ));
            }
        }
        k = k + 1;
    }
    if quick {
        let r = Err(FindError::FileNotFound);
        let ghost is_file = probes@.map_values(|p: Probe| p.is_file);
        let ghost keys = probes@.map_values(|p: Probe| probe_key(p));
        proof {
            assert forall|c: int| !first_file_at(is_file, c) by {
                if 0 <= c < is_file.len() {
                    assert(!probes@[c].is_file);
                }
            }
            assert(explains(&r, exec_type, file_name_pattern@, name@, paths@, *dirs, sps@, is_file, keys, find_one, is_debug, trace_view(old(trace)@), trace_view(trace@)));
                crate::config::laws::lemma_search_laws(&r, exec_type, file_name_pattern@, name@, paths@, *dirs, sps@, is_file, keys, find_one, is_debug, trace_view(old(trace)@), trace_view(trace@));
        }
        r
    } else {
        let r = select_files(&cands, &probes);
        proof {
            let is_file = probes@.map_values(|p: Probe| p.is_file);
            let keys = probes@.map_values(|p: Probe| probe_key(p));
            if is_debug {
                assert(trace_of(cv, is_file) =~= Seq::new(
                    cands@.len() as nat,
                    |j: int| (cv[j].0, cv[j].1, probes@[j].is_file),
                ));
            }
            assert(explains(&r, exec_type, file_name_pattern@, name@, paths@, *dirs, sps@, is_file, keys, find_one, is_debug, trace_view(old(trace)@), trace_view(trace@)));
                crate::config::laws::lemma_search_laws(&r, exec_type, file_name_pattern@, name@, paths@, *dirs, sps@, is_file, keys, find_one, is_debug, trace_view(old(trace)@), trace_view(trace@));
        }
        r
    }
}

} // verus!
