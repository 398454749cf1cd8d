//! Root resolution: which directory is the outermost one that the sandbox
//! must see.
//!
//! The root is either named by the build-metadata provider, or found by
//! looking for a marker file in the ancestors of the manifest directory.

use vstd::prelude::*;
use crate::errors::RunnerError;

verus! {

/// What the runner reads of the build-metadata provider's answer.
#[derive(Debug, Clone, PartialEq, Eq)]
pub struct CargoMetadata {
    /// The absolute path of the workspace root.
    pub workspace_root: String,
}

/// An ancestor of the manifest directory, and whether the marker file was
/// found in it.
#[derive(Debug, Clone, PartialEq, Eq)]
pub struct ProbedDirectory {
    pub path: String,
    pub has_marker: bool,
}

/// Which of the directories that hold a marker file is taken for the root.
///
/// A marker file does not say whether it describes one package or a whole
/// workspace, so neither choice is right for every layout.
#[derive(Debug, Clone, Copy, PartialEq, Eq)]
pub enum MarkerPolicy {
    /// The directory farthest from the manifest directory.
    Outermost,
    /// The directory closest to the manifest directory.
    Nearest,
}

/// Whether any of the probed directories holds the marker file.
pub open spec fn any_marked(probes: Seq<ProbedDirectory>) -> bool {
    exists|i: int| 0 <= i < probes.len() && (#[trigger] probes[i]).has_marker
}

/// Whether directory `i` is the one that `policy` picks: it holds the
/// marker, and none beyond it (for `Outermost`) or before it (for
/// `Nearest`) does. The probes are ordered from the manifest directory
/// outwards.
pub open spec fn is_picked(probes: Seq<ProbedDirectory>, policy: MarkerPolicy, i: int) -> bool {
    &&& 0 <= i < probes.len()
    &&& probes[i].has_marker
    &&& match policy {
        MarkerPolicy::Outermost => forall|j: int|
            i < j < probes.len() ==> !(#[trigger] probes[j]).has_marker,
        MarkerPolicy::Nearest => forall|j: int| 0 <= j < i ==> !(#[trigger] probes[j]).has_marker,
    }
}

/// The root that the metadata provider named. Without an answer there is no
/// root.
pub fn resolve_root(metadata: Option<CargoMetadata>) -> (r: Result<String, RunnerError>)
    ensures
        match metadata {
            Some(m) => r is Ok && r.unwrap()@ == m.workspace_root@,
            None => r matches Err(RunnerError::MetadataUnavailable),
        },
{
    match metadata {
        Some(m) => Ok(m.workspace_root),
        None => Err(RunnerError::MetadataUnavailable),
    }
}

/// The root found by the marker file. `probes` are the ancestors of the
/// manifest directory, nearest first, each with the outcome of looking for
/// the marker in it; where the manifest directory is not known, there are
/// none.
///
/// The root is the directory that `policy` picks among those that hold the
/// marker. Where none holds it the result is `MarkerNotFound`.
pub fn resolve_root_by_marker(probes: &Vec<ProbedDirectory>, policy: MarkerPolicy) -> (r: Result<
    String,
    RunnerError,
>)
    ensures
        r is Ok <==> any_marked(probes@),
        r is Err ==> r.unwrap_err() is MarkerNotFound,
        forall|i: int| is_picked(probes@, policy, i) ==> r is Ok && r.unwrap()@ == probes@[i].path@,
{
    let mut found: Option<usize> = None;
    let mut i: usize = 0;
    while i < probes.len()
        invariant
            i <= probes.len(),
            found is None ==> forall|j: int| 0 <= j < i ==> !(#[trigger] probes@[j]).has_marker,
            found is Some ==> is_picked(probes@.take(i as int), policy, found.unwrap() as int),
        decreases probes.len() - i,
    {
        let ghost before = probes@.take(i as int);
        let ghost after = probes@.take(i + 1);
        proof {
            assert(forall|j: int| 0 <= j < i ==> before[j] == after[j]);
        }
        if probes[i].has_marker {
            match policy {
                MarkerPolicy::Outermost => {
                    found = Some(i);
                },
                MarkerPolicy::Nearest => {
                    if found.is_none() {
                        found = Some(i);
                    }
                },
            }
        }
        proof {
            if found is Some {
                let k = found.unwrap() as int;
                assert(after[k] == probes@[k]);
                assert(is_picked(after, policy, k));
            }
        }
        i += 1;
    }
    proof {
        assert(probes@.take(i as int) =~= probes@);
    }
    match found {
        Some(k) => {
            proof {
                assert forall|n: int| is_picked(probes@, policy, n) implies n == k by {
                    if n < k {
                        assert(probes@[k as int].has_marker);
                        assert(probes@[n].has_marker);
                    } else if n > k {
                        assert(probes@[k as int].has_marker);
                        assert(probes@[n].has_marker);
                    }
                }
                assert(probes@[k as int].has_marker);
            }
            Ok(probes[k].path.clone())
        },
        None => Err(RunnerError::MarkerNotFound),
    }
}

} // verus!
