//! Drives the per-file record builder over the candidate files and hands
//! the built records to the aggregator.  Failures are isolated per file:
//! each candidate either becomes a record or leaves one skip note naming
//! its own file, the dataset holds exactly the records of the candidates
//! whose bytes decode cleanly, and only an entirely empty result is
//! fatal.

use vstd::prelude::*;

use crate::dataset::{aggregate, asset_wf, dataset_wf, same_core, Dataset, MediaAsset};
use crate::errors::{FatalError, SkipReason};
use crate::exif_io::exif_tags_of;
use crate::path_filter::{is_candidate, path_is_candidate};
use crate::record::{decode_file, decode_outcome, record_data_matches, RawTags};
use crate::timestamp::time_key;

verus! {

/// One candidate file handed to the pipeline: its absolute path and its
/// bytes, or `None` when reading the file failed.
pub struct FileInput {
    pub path: Vec<u8>,
    pub bytes: Option<Vec<u8>>,
}

/// The recorded reason one candidate file was excluded; the scan goes on.
#[derive(Clone, Debug)]
pub struct SkipNote {
    pub path: Vec<u8>,
    pub reason: SkipReason,
}

/// What a full build produced: the dataset, or the fatal condition, and
/// one note per skipped candidate file either way.
pub struct BuildReport {
    pub outcome: Result<Dataset, FatalError>,
    pub skipped: Vec<SkipNote>,
}

/// Why this file is skipped, or `None` when it yields a record: unread
/// bytes are an `IoError`, anything else is decided by the bytes alone.
pub open spec fn file_skip(f: FileInput) -> Option<SkipReason> {
    if f.bytes is None {
        Some(SkipReason::IoError)
    } else {
        decode_outcome(f.bytes->Some_0@)
    }
}

/// The tag readings of this file's bytes.
pub open spec fn file_tags(f: FileInput) -> RawTags {
    exif_tags_of(f.bytes->Some_0@)
}

/// A candidate file that yields a record.
pub open spec fn file_succeeds_pred() -> spec_fn(FileInput) -> bool {
    |f: FileInput| path_is_candidate(f.path@) && file_skip(f) is None
}

/// A candidate file that is skipped.
pub open spec fn file_fails_pred() -> spec_fn(FileInput) -> bool {
    |f: FileInput| path_is_candidate(f.path@) && file_skip(f) is Some
}

/// The candidate files that yield a record, in discovery order.
pub open spec fn successes(files: Seq<FileInput>) -> Seq<FileInput> {
    files.filter(file_succeeds_pred())
}

/// The candidate files that are skipped, in discovery order.
pub open spec fn failures(files: Seq<FileInput>) -> Seq<FileInput> {
    files.filter(file_fails_pred())
}

/// The dataset's records are exactly the records of the successful
/// candidates, stably rearranged by capture time: `perm` maps each output
/// position, injectively, to the success it came from, each record
/// carries that candidate's path and converted tag data, and records with
/// equal capture times keep their discovery order.
pub open spec fn assets_from_successes(
    perm: Seq<int>,
    succ: Seq<FileInput>,
    output: Seq<MediaAsset>,
) -> bool {
    &&& perm.len() == output.len()
    &&& output.len() == succ.len()
    &&& forall|i: int| 0 <= i < perm.len() ==> 0 <= #[trigger] perm[i] < succ.len()
    &&& forall|i: int, j: int| 0 <= i < j < perm.len() ==> perm[i] != perm[j]
    &&& forall|i: int|
        0 <= i < perm.len() ==> record_data_matches(
            #[trigger] output[i],
            succ[perm[i]].path@,
            file_tags(succ[perm[i]]),
        )
    &&& forall|i: int, j: int|
        0 <= i < j < perm.len() && time_key(#[trigger] output[i].capture_time) == time_key(
            #[trigger] output[j].capture_time,
        ) ==> perm[i] < perm[j]
}

/// Builds the dataset from files already read into memory.  Files that
/// fail the Path Filter are ignored.  Every other file's fate is decided
/// by its bytes alone: it contributes exactly its own record, or leaves
/// exactly one skip note naming its path and reason, in discovery order.
/// The outcome is the validated, ordered dataset over precisely the
/// successful candidates, or `EmptyDatasetError` exactly when there is
/// none.
pub fn build_dataset_from_files(files: Vec<FileInput>) -> (r: BuildReport)
    ensures
        r.outcome is Err <==> successes(files@).len() == 0,
        r.outcome matches Err(e) ==> e == FatalError::EmptyDatasetError,
        r.outcome matches Ok(d) ==> {
            &&& dataset_wf(d)
            &&& d.assets@.len() == successes(files@).len()
            &&& exists|perm: Seq<int>| assets_from_successes(perm, successes(files@), d.assets@)
        },
        r.skipped@.len() == failures(files@).len(),
        forall|j: int|
            0 <= j < r.skipped@.len() ==> (#[trigger] r.skipped@[j]).path@ == failures(
                files@,
            )[j].path@ && Some(r.skipped@[j].reason) == file_skip(failures(files@)[j]),
        forall|j: int|
            0 <= j < r.skipped@.len() ==> path_is_candidate(#[trigger] r.skipped@[j].path@),
{
    let ghost full = files@;
    let n = files.len();
    let mut rest = files;
    let mut stack: Vec<FileInput> = Vec::new();
    proof {
        assert(full.subrange(0, full.len() as int) =~= full);
    }
    while rest.len() > 0
        invariant
            rest@.len() + stack@.len() == n == full.len(),
            rest@ == full.subrange(0, rest@.len() as int),
            forall|k: int| 0 <= k < stack@.len() ==> #[trigger] stack@[k] == full[n - 1 - k],
        decreases rest.len(),
    {
        let f = rest.pop().unwrap();
        proof {
            assert(rest@ =~= full.subrange(0, rest@.len() as int));
        }
        stack.push(f);
    }
    let mut records: Vec<MediaAsset> = Vec::new();
    let mut skipped: Vec<SkipNote> = Vec::new();
    proof {
        reveal(Seq::filter);
        assert(full.subrange(0, 0) =~= Seq::<FileInput>::empty());
        assert(successes(full.subrange(0, 0)) =~= Seq::<FileInput>::empty());
        assert(failures(full.subrange(0, 0)) =~= Seq::<FileInput>::empty());
    }
    while stack.len() > 0
        invariant
            stack@.len() <= n == full.len(),
            forall|k: int| 0 <= k < stack@.len() ==> #[trigger] stack@[k] == full[n - 1 - k],
            records@.len() == successes(full.subrange(0, n - stack@.len())).len(),
            forall|k: int|
                0 <= k < records@.len() ==> {
                    let s = successes(full.subrange(0, n - stack@.len()))[k];
                    record_data_matches(#[trigger] records@[k], s.path@, file_tags(s))
                },
            forall|k: int| 0 <= k < records@.len() ==> asset_wf(#[trigger] records@[k]),
            skipped@.len() == failures(full.subrange(0, n - stack@.len())).len(),
            forall|j: int|
                0 <= j < skipped@.len() ==> {
                    let s = failures(full.subrange(0, n - stack@.len()))[j];
                    (#[trigger] skipped@[j]).path@ == s.path@ && Some(skipped@[j].reason)
                        == file_skip(s)
                },
            forall|j: int|
                0 <= j < skipped@.len() ==> path_is_candidate(#[trigger] skipped@[j].path@),
        decreases stack.len(),
    {
        let ghost i = n - stack@.len();
        let f = stack.pop().unwrap();
        proof {
            assert(f == full[i]);
        }
        let keep = is_candidate(&f.path);
        proof {
            reveal(Seq::filter);
            let pre = full.subrange(0, i);
            let cur = full.subrange(0, i + 1);
            assert(cur.drop_last() =~= pre);
            assert(cur.last() == full[i]);
            assert(successes(cur) == if file_succeeds_pred()(full[i]) {
                successes(pre).push(full[i])
            } else {
                successes(pre)
            });
            assert(failures(cur) == if file_fails_pred()(full[i]) {
                failures(pre).push(full[i])
            } else {
                failures(pre)
            });
        }
        if keep {
            match decode_file(&f.path, &f.bytes) {
                Ok(a) => {
                    proof {
                        assert(file_skip(f) is None);
                        assert(record_data_matches(a, f.path@, file_tags(f)));
                    }
                    records.push(a);
                },
                Err(reason) => {
                    proof {
                        assert(Some(reason) == file_skip(f));
                    }
                    skipped.push(SkipNote { path: f.path, reason });
                },
            }
        }
    }
    proof {
        assert(full.subrange(0, n as int) =~= full);
    }
    let ghost recs = records@;
    match aggregate(records) {
        Ok(d) => {
            proof {
                let succ = successes(full);
                let perm = choose|p: Seq<int>|
                    crate::dataset::is_stable_arrangement(p, recs, d.assets@);
                assert(crate::dataset::is_stable_arrangement(perm, recs, d.assets@));
                assert forall|i: int|
                    0 <= i < perm.len() implies record_data_matches(
                    #[trigger] d.assets@[i],
                    succ[perm[i]].path@,
                    file_tags(succ[perm[i]]),
                ) by {
                    assert(same_core(d.assets@[i], recs[perm[i]]));
                    assert(record_data_matches(
                        recs[perm[i]],
                        succ[perm[i]].path@,
                        file_tags(succ[perm[i]]),
                    ));
                }
                assert(assets_from_successes(perm, succ, d.assets@));
            }
            BuildReport { outcome: Ok(d), skipped }
        },
        Err(e) => BuildReport { outcome: Err(e), skipped },
    }
}

} // verus!
