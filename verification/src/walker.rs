//! Recursively enumerates a root directory and keeps the candidate media
//! paths.  Unreadable subdirectories are skipped; only an unreadable root
//! fails the walk as a whole.  No ordering is guaranteed or relied upon:
//! the aggregator re-sorts.  Behavior on symbolic-link cycles is
//! undefined.

use vstd::prelude::*;

use crate::errors::FatalError;
use crate::path_filter::{is_candidate, path_is_candidate};

verus! {

/// Relies on `walkdir::WalkDir`: walks the tree under `root` to unbounded
/// depth and hands back every entry's path, plus one warning note per
/// entry that could not be read.  An error at depth 0 means the root
/// itself could not be read and fails the walk.  What comes back depends
/// on the state of the disk, so nothing is assumed of it.
#[verifier::external_body]
fn walk_tree(root: &Vec<u8>) -> Option<(Vec<Vec<u8>>, Vec<Vec<u8>>)> {
    let root_path = String::from_utf8_lossy(root.as_slice()).into_owned();
    let mut out: Vec<Vec<u8>> = Vec::new();
    let mut warnings: Vec<Vec<u8>> = Vec::new();
    for entry in walkdir::WalkDir::new(&root_path) {
        match entry {
            Ok(e) => out.push(e.path().to_string_lossy().into_owned().into_bytes()),
            Err(err) => {
                if err.depth() == 0 {
                    return None;
                }
                warnings.push(format!("{}", err).into_bytes());
            },
        }
    }
    Some((out, warnings))
}

/// The candidate predicate as a spec closure, for stating filters.
pub open spec fn candidate_pred() -> spec_fn(Vec<u8>) -> bool {
    |p: Vec<u8>| path_is_candidate(p@)
}

/// Keeps exactly the candidate media paths, in the given order.
pub fn filter_candidates(paths: Vec<Vec<u8>>) -> (r: Vec<Vec<u8>>)
    ensures
        r@ == paths@.filter(candidate_pred()),
{
    let ghost full = paths@;
    let n = paths.len();
    let mut rest = paths;
    let mut stack: Vec<Vec<u8>> = Vec::new();
    proof {
        assert(full.subrange(0, full.len() as int) =~= full);
    }
    while rest.len() > 0
        invariant
            rest@.len() + stack@.len() == n == full.len(),
            rest@ == full.subrange(0, rest@.len() as int),
            forall|k: int| 0 <= k < stack@.len() ==> #[trigger] stack@[k] == full[n - 1 - k],
        decreases rest.len(),
    {
        let p = rest.pop().unwrap();
        proof {
            assert(rest@ =~= full.subrange(0, rest@.len() as int));
        }
        stack.push(p);
    }
    let mut out: Vec<Vec<u8>> = Vec::new();
    proof {
        reveal(Seq::filter);
        assert(full.subrange(0, 0) =~= Seq::<Vec<u8>>::empty());
        assert(full.subrange(0, 0).filter(candidate_pred()) =~= Seq::<Vec<u8>>::empty());
    }
    while stack.len() > 0
        invariant
            stack@.len() <= n == full.len(),
            forall|k: int| 0 <= k < stack@.len() ==> #[trigger] stack@[k] == full[n - 1 - k],
            out@ == full.subrange(0, n - stack@.len()).filter(candidate_pred()),
        decreases stack.len(),
    {
        let ghost i = n - stack@.len();
        let p = stack.pop().unwrap();
        proof {
            assert(p == full[i]);
        }
        let keep = is_candidate(&p);
        proof {
            reveal(Seq::filter);
            let pre = full.subrange(0, i);
            let cur = full.subrange(0, i + 1);
            assert(cur.drop_last() =~= pre);
            assert(cur.last() == full[i]);
            assert(cur.filter(candidate_pred()) == if candidate_pred()(full[i]) {
                pre.filter(candidate_pred()).push(full[i])
            } else {
                pre.filter(candidate_pred())
            });
        }
        if keep {
            out.push(p);
        }
    }
    proof {
        assert(full.subrange(0, n as int) =~= full);
    }
    out
}

/// What a walk of the root found: the candidate media paths, and one
/// warning note per directory entry that could not be read.
pub struct Discovery {
    pub candidates: Vec<Vec<u8>>,
    pub warnings: Vec<Vec<u8>>,
}

/// Enumerates the root directory recursively and returns the candidate
/// media paths.  Fails exactly when the root itself cannot be read, the
/// fatal startup condition: an unreadable subdirectory only loses its
/// entries, each recorded as a warning.
pub fn discover(root: &Vec<u8>) -> (r: Result<Discovery, FatalError>)
    ensures
        r matches Err(e) ==> e == FatalError::RootDirectoryUnreadable,
        r matches Ok(d) ==> forall|i: int|
            0 <= i < d.candidates@.len() ==> path_is_candidate(#[trigger] d.candidates@[i]@),
{
    let (all, warnings) = match walk_tree(root) {
        Some(v) => v,
        None => {
            return Err(FatalError::RootDirectoryUnreadable);
        },
    };
    let kept = filter_candidates(all);
    proof {
        assert(forall|i: int|
            0 <= i < kept@.len() ==> path_is_candidate(#[trigger] kept@[i]@)) by {
            all@.filter_lemma(candidate_pred());
        }
    }
    Ok(Discovery { candidates: kept, warnings })
}

} // verus!
