//! Process and window presence decisions. The process table (pid and
//! executable path of every process) and the set of pids owning a real
//! on-screen window are read from the system by the caller; these
//! functions decide which process is an app's main process and whether an
//! app has a window.
use std::collections::HashSet;
use vstd::prelude::*;

use crate::text::{chars_of, find_seq, contains_seq, is_first_occurrence, occurs_in};

verus! {

/// One running process: its pid and executable path.
pub struct ProcessEntry {
    pub pid: i32,
    pub path: String,
}

/// The path marker of an app bundle's main executable, `/<app><kind>`.
pub open spec fn app_marker(app: Seq<char>, kind: Seq<char>) -> Seq<char> {
    "/"@ + app + kind
}

/// Where the first `marker` sits in `path` decides the match: it is the
/// app's own executable unless the text before it lies inside a
/// `/Contents/Frameworks` directory (a helper app). `None` when `marker`
/// does not occur.
pub open spec fn marker_verdict(path: Seq<char>, marker: Seq<char>) -> Option<bool> {
    if exists|i: int| is_first_occurrence(path, marker, i) {
        let i = choose|i: int| is_first_occurrence(path, marker, i);
        Some(!occurs_in(path.take(i), "/Contents/Frameworks"@))
    } else {
        None
    }
}

/// `path` is the main executable of the app bundle named `app`: either the
/// `.app` form or the `.app.bundle` form of a code-sign clone, whichever
/// occurs (the `.app` form decides when both do).
pub open spec fn path_matches_app_spec(path: Seq<char>, app: Seq<char>) -> bool {
    match marker_verdict(path, app_marker(app, ".app/Contents/MacOS/"@)) {
        Some(b) => b,
        None => match marker_verdict(path, app_marker(app, ".app.bundle/Contents/MacOS/"@)) {
            Some(b) => b,
            None => false,
        },
    }
}

fn marker_of(app: &str, kind: &str) -> (r: Vec<char>)
    ensures
        r@ == app_marker(app@, kind@),
{
    let mut s = String::new();
    s.append("/");
    s.append(app);
    s.append(kind);
    chars_of(s.as_str())
}

fn verdict_of(path: &Vec<char>, marker: &Vec<char>) -> (r: Option<bool>)
    ensures
        r == marker_verdict(path@, marker@),
{
    match find_seq(path, marker) {
        Some(i) => {
            proof {
                let c = choose|k: int| is_first_occurrence(path@, marker@, k);
                assert(is_first_occurrence(path@, marker@, c));
                assert(c == i);
            }
            let before = crate::text::copy_range(path, 0, i);
            assert(before@ =~= path@.take(i as int));
            let frameworks = chars_of("/Contents/Frameworks");
            Some(!contains_seq(&before, &frameworks))
        },
        None => None,
    }
}

/// True when `path` is the main executable of the named app bundle.
/// Helpers live under `Contents/Frameworks/*.app/` and never match.
/// Chrome-family browsers run their main binary from a code-sign clone
/// (`…/Google Chrome.app.bundle/Contents/MacOS/…`), so that form matches
/// too.
pub fn path_matches_app(path: &str, app_name: &str) -> (r: bool)
    ensures
        r == path_matches_app_spec(path@, app_name@),
{
    let p = chars_of(path);
    let first = marker_of(app_name, ".app/Contents/MacOS/");
    if let Some(b) = verdict_of(&p, &first) {
        return b;
    }
    let second = marker_of(app_name, ".app.bundle/Contents/MacOS/");
    match verdict_of(&p, &second) {
        Some(b) => b,
        None => false,
    }
}

/// The pids of the processes whose executable is the app's main one, in
/// process-table order.
pub open spec fn matching_pids(procs: Seq<ProcessEntry>, app: Seq<char>) -> Seq<i32>
    decreases procs.len(),
{
    if procs.len() == 0 {
        Seq::empty()
    } else {
        let rest = matching_pids(procs.drop_last(), app);
        if path_matches_app_spec(procs.last().path@, app) {
            rest.push(procs.last().pid)
        } else {
            rest
        }
    }
}

/// `pid` owns a real window according to `windowed`.
pub open spec fn is_windowed(windowed: Set<i64>, pid: i32) -> bool {
    windowed.contains(pid as i64)
}

/// `i` is the first of `pids` that owns a real window.
pub open spec fn first_windowed(pids: Seq<i32>, windowed: Set<i64>, i: int) -> bool {
    &&& 0 <= i < pids.len()
    &&& is_windowed(windowed, pids[i])
    &&& forall|j: int| 0 <= j < i ==> !is_windowed(windowed, #[trigger] pids[j])
}

/// The app's main process: none when no process matches; the only one
/// when exactly one does; otherwise the first that owns a real window (the
/// real browser rather than a short-lived hand-off stub at the same path),
/// or the first match when none does.
pub open spec fn find_pid_spec(procs: Seq<ProcessEntry>, app: Seq<char>, windowed: Set<i64>) -> Option<
    i32,
> {
    let m = matching_pids(procs, app);
    if m.len() == 0 {
        None
    } else if m.len() >= 2 && exists|i: int| first_windowed(m, windowed, i) {
        Some(m[choose|i: int| first_windowed(m, windowed, i)])
    } else {
        Some(m[0])
    }
}

fn contains_pid(windowed: &HashSet<i64>, pid: i32) -> (r: bool)
    ensures
        r == is_windowed(windowed@, pid),
{
    broadcast use vstd::std_specs::hash::group_hash_axioms;
    let key: i64 = pid as i64;
    windowed.contains(&key)
}

/// The pids of processes whose executable is `app_name`'s main one.
pub fn matching_pids_of(processes: &Vec<ProcessEntry>, app_name: &str) -> (r: Vec<i32>)
    ensures
        r@ == matching_pids(processes@, app_name@),
{
    let n = processes.len();
    let mut out: Vec<i32> = Vec::new();
    let mut k: usize = 0;
    while k < n
        invariant
            n == processes@.len(),
            k <= n,
            out@ == matching_pids(processes@.take(k as int), app_name@),
        decreases n - k,
    {
        proof {
            assert(processes@.take(k + 1).drop_last() =~= processes@.take(k as int));
            assert(processes@.take(k + 1).last() == processes@[k as int]);
        }
        if path_matches_app(processes[k].path.as_str(), app_name) {
            out.push(processes[k].pid);
        }
        k += 1;
    }
    assert(processes@.take(n as int) =~= processes@);
    out
}

/// Pid of the named app's main process, from the process table and the
/// pids that own a real window.
pub fn find_pid(app_name: &str, processes: &Vec<ProcessEntry>, windowed: &HashSet<i64>) -> (r: Option<
    i32,
>)
    ensures
        r == find_pid_spec(processes@, app_name@, windowed@),
{
    let matches = matching_pids_of(processes, app_name);
    let n = matches.len();
    if n == 0 {
        return None;
    }
    if n == 1 {
        return Some(matches[0]);
    }
    let mut k: usize = 0;
    while k < n
        invariant
            n == matches@.len(),
            matches@ == matching_pids(processes@, app_name@),
            n >= 2,
            k <= n,
            forall|j: int| 0 <= j < k ==> !is_windowed(windowed@, #[trigger] matches@[j]),
        decreases n - k,
    {
        if contains_pid(windowed, matches[k]) {
            proof {
                assert(first_windowed(matches@, windowed@, k as int));
                let c = choose|i: int| first_windowed(matches@, windowed@, i);
                assert(first_windowed(matches@, windowed@, c));
                if c < k {
                    assert(!is_windowed(windowed@, matches@[c]));
                } else if c > k {
                    assert(is_windowed(windowed@, matches@[k as int]));
                }
            }
            return Some(matches[k]);
        }
        k += 1;
    }
    assert(!exists|i: int| first_windowed(matches@, windowed@, i));
    Some(matches[0])
}

/// Resolve several app names against one process table; every matching pid
/// per name is kept so callers can prefer the windowed one.
pub fn find_all_pids(app_names: &Vec<String>, processes: &Vec<ProcessEntry>) -> (r: Vec<Vec<i32>>)
    ensures
        r@.len() == app_names@.len(),
        forall|i: int|
            0 <= i < app_names@.len() ==> (#[trigger] r@[i])@ == matching_pids(
                processes@,
                app_names@[i]@,
            ),
{
    let n = app_names.len();
    let mut out: Vec<Vec<i32>> = Vec::new();
    let mut k: usize = 0;
    while k < n
        invariant
            n == app_names@.len(),
            k <= n,
            out@.len() == k,
            forall|i: int|
                0 <= i < k ==> (#[trigger] out@[i])@ == matching_pids(processes@, app_names@[i]@),
        decreases n - k,
    {
        let pids = matching_pids_of(processes, app_names[k].as_str());
        out.push(pids);
        k += 1;
    }
    out
}

/// True when the process owns at least one real window.
pub fn pid_has_real_window(pid: i32, windowed: &HashSet<i64>) -> (r: bool)
    ensures
        r == is_windowed(windowed@, pid),
{
    contains_pid(windowed, pid)
}

/// Does the app's main process have a real window on any Space?
pub fn app_window_ready(app_name: &str, processes: &Vec<ProcessEntry>, windowed: &HashSet<i64>) -> (r:
    bool)
    ensures
        r == match find_pid_spec(processes@, app_name@, windowed@) {
            Some(pid) => is_windowed(windowed@, pid),
            None => false,
        },
{
    match find_pid(app_name, processes, windowed) {
        Some(pid) => pid_has_real_window(pid, windowed),
        None => false,
    }
}

/// Some process of `app` owns a real window.
pub open spec fn app_has_window(procs: Seq<ProcessEntry>, app: Seq<char>, windowed: Set<i64>) -> bool {
    exists|j: int|
        0 <= j < matching_pids(procs, app).len() && is_windowed(
            windowed,
            #[trigger] matching_pids(procs, app)[j],
        )
}

fn any_windowed(pids: &Vec<i32>, windowed: &HashSet<i64>) -> (r: bool)
    ensures
        r == exists|q: int| 0 <= q < pids@.len() && is_windowed(windowed@, #[trigger] pids@[q]),
{
    let m = pids.len();
    let mut j: usize = 0;
    while j < m
        invariant
            m == pids@.len(),
            j <= m,
            forall|q: int| 0 <= q < j ==> !is_windowed(windowed@, #[trigger] pids@[q]),
        decreases m - j,
    {
        if contains_pid(windowed, pids[j]) {
            return true;
        }
        j += 1;
    }
    false
}

/// Every named app has a process that owns a real window; false for an
/// empty list.
pub fn apps_all_have_windows(
    app_names: &Vec<String>,
    processes: &Vec<ProcessEntry>,
    windowed: &HashSet<i64>,
) -> (r: bool)
    ensures
        r == (app_names@.len() > 0 && forall|i: int|
            0 <= i < app_names@.len() ==> app_has_window(processes@, (#[trigger] app_names@[i])@, windowed@)),
{
    let n = app_names.len();
    if n == 0 {
        return false;
    }
    let candidates = find_all_pids(app_names, processes);
    let mut k: usize = 0;
    while k < n
        invariant
            n == app_names@.len(),
            n == candidates@.len(),
            n > 0,
            k <= n,
            forall|i: int|
                0 <= i < n ==> (#[trigger] candidates@[i])@ == matching_pids(
                    processes@,
                    app_names@[i]@,
                ),
            forall|i: int| 0 <= i < k ==> app_has_window(processes@, (#[trigger] app_names@[i])@, windowed@),
        decreases n - k,
    {
        if !any_windowed(&candidates[k], windowed) {
            return false;
        }
        k += 1;
    }
    true
}

} // verus!
