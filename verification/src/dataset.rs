//! Assigns sequential identifiers, computes the capture-time range, and
//! produces the chronologically sorted final collection.  The sort is
//! stable: records with equal capture times keep their discovery order, so
//! identifier assignment is reproducible for a given walk order.

use vstd::prelude::*;

use crate::errors::FatalError;
use crate::rational::DecimalDegrees;
use crate::timestamp::{DateTime, dt_valid, time_key};

verus! {

/// One validated record, built from exactly one source file and never
/// mutated afterwards.
#[derive(Clone, Debug)]
pub struct MediaAsset {
    /// Positive and unique within a dataset; 0 means "unassigned".
    pub id: u64,
    /// The absolute path of the source file, as bytes.
    pub source_path: Vec<u8>,
    /// The naive wall-clock capture time recorded by the camera.
    pub capture_time: DateTime,
    /// Signed decimal degrees, in [-90, 90].
    pub latitude: DecimalDegrees,
    /// Signed decimal degrees, in [-180, 180].
    pub longitude: DecimalDegrees,
    /// Meters; 0 when the altitude tag is absent.
    pub altitude_m: i64,
}

/// A valid record: a calendar-valid capture time and coordinates inside
/// the legal ranges.
pub open spec fn asset_wf(a: MediaAsset) -> bool {
    &&& dt_valid(a.capture_time)
    &&& a.latitude.den > 0
    &&& -90 * a.latitude.den <= a.latitude.num <= 90 * a.latitude.den
    &&& a.longitude.den > 0
    &&& -180 * a.longitude.den <= a.longitude.num <= 180 * a.longitude.den
}

/// Two records hold the same data apart from the assigned identifier.
pub open spec fn same_core(a: MediaAsset, b: MediaAsset) -> bool {
    &&& a.source_path@ == b.source_path@
    &&& a.capture_time == b.capture_time
    &&& a.latitude == b.latitude
    &&& a.longitude == b.longitude
    &&& a.altitude_m == b.altitude_m
}

/// The ordered, validated dataset: records sorted ascending by capture
/// time, identifiers 1..=N in that order, and the time range over all
/// records.
pub struct Dataset {
    pub assets: Vec<MediaAsset>,
    pub first_capture_time: DateTime,
    pub last_capture_time: DateTime,
}

/// The dataset invariant.
pub open spec fn dataset_wf(d: Dataset) -> bool {
    &&& d.assets@.len() >= 1
    &&& forall|i: int| 0 <= i < d.assets@.len() ==> asset_wf(#[trigger] d.assets@[i])
    &&& forall|i: int| 0 <= i < d.assets@.len() ==> (#[trigger] d.assets@[i]).id == i + 1
    &&& forall|i: int, j: int|
        0 <= i < j < d.assets@.len() ==> time_key(#[trigger] d.assets@[i].capture_time)
            <= time_key(#[trigger] d.assets@[j].capture_time)
    &&& d.first_capture_time == d.assets@[0].capture_time
    &&& d.last_capture_time == d.assets@[d.assets@.len() - 1].capture_time
}

/// `output` is `input` stably rearranged by capture time: `perm` maps each
/// output position to the input position it came from, injectively, the
/// data is unchanged apart from identifiers, and records with equal
/// capture times keep their input order.
pub open spec fn is_stable_arrangement(
    perm: Seq<int>,
    input: Seq<MediaAsset>,
    output: Seq<MediaAsset>,
) -> bool {
    &&& perm.len() == output.len()
    &&& output.len() == input.len()
    &&& forall|i: int| 0 <= i < perm.len() ==> 0 <= #[trigger] perm[i] < input.len()
    &&& forall|i: int, j: int| 0 <= i < j < perm.len() ==> perm[i] != perm[j]
    &&& forall|i: int| 0 <= i < perm.len() ==> same_core(#[trigger] output[i], input[perm[i]])
    &&& forall|i: int, j: int|
        0 <= i < j < perm.len() && time_key(#[trigger] output[i].capture_time) == time_key(
            #[trigger] output[j].capture_time,
        ) ==> perm[i] < perm[j]
}

/// The discovery order of one record during aggregation: its capture-time
/// key, its discovery index, and the record itself.
type Keyed = (u64, usize, MediaAsset);

/// Strict lexicographic order on (key, discovery index).
spec fn keyed_lt(a: Keyed, b: Keyed) -> bool {
    a.0 < b.0 || (a.0 == b.0 && a.1 < b.1)
}

/// The item genuinely stands for the input record at its discovery index.
spec fn keyed_genuine(it: Keyed, input: Seq<MediaAsset>) -> bool {
    &&& it.1 < input.len()
    &&& it.0 == time_key(input[it.1 as int].capture_time)
    &&& same_core(it.2, input[it.1 as int])
}

spec fn all_genuine(s: Seq<Keyed>, input: Seq<MediaAsset>) -> bool {
    forall|k: int| 0 <= k < s.len() ==> keyed_genuine(#[trigger] s[k], input)
}

spec fn keyed_sorted(s: Seq<Keyed>) -> bool {
    forall|k1: int, k2: int| 0 <= k1 < k2 < s.len() ==> keyed_lt(#[trigger] s[k1], #[trigger] s[k2])
}

spec fn idx_unique(s: Seq<Keyed>) -> bool {
    forall|k1: int, k2: int|
        0 <= k1 < k2 < s.len() ==> (#[trigger] s[k1]).1 != (#[trigger] s[k2]).1
}

spec fn idx_disjoint(s: Seq<Keyed>, t: Seq<Keyed>) -> bool {
    forall|k1: int, k2: int|
        0 <= k1 < s.len() && 0 <= k2 < t.len() ==> (#[trigger] s[k1]).1 != (#[trigger] t[k2]).1
}

/// Sorts the records ascending by capture time (stable on discovery
/// order), assigns identifiers 1..=N in that order, and computes the time
/// range.  Fails with `EmptyDatasetError` exactly when no record was
/// given; this is the fatal startup condition for an empty scan.
pub fn aggregate(records: Vec<MediaAsset>) -> (r: Result<Dataset, FatalError>)
    requires
        forall|i: int| 0 <= i < records@.len() ==> asset_wf(#[trigger] records@[i]),
    ensures
        r is Err <==> records@.len() == 0,
        r matches Err(e) ==> e == FatalError::EmptyDatasetError,
        r matches Ok(d) ==> {
            &&& dataset_wf(d)
            &&& d.assets@.len() == records@.len()
            &&& exists|perm: Seq<int>| is_stable_arrangement(perm, records@, d.assets@)
        },
{
    let ghost input = records@;
    let n = records.len();
    if n == 0 {
        return Err(FatalError::EmptyDatasetError);
    }
    // Strip the records into keyed items, remembering each one's discovery
    // index.
    let mut rest = records;
    let mut items: Vec<Keyed> = Vec::new();
    proof {
        assert(input.subrange(0, input.len() as int) =~= input);
    }
    while rest.len() > 0
        invariant
            rest@.len() <= input.len() == n,
            rest@ == input.subrange(0, rest@.len() as int),
            items@.len() + rest@.len() == n,
            forall|k: int| 0 <= k < items@.len() ==> (#[trigger] items@[k]).1 == n - 1 - k,
            all_genuine(items@, input),
            forall|i: int| 0 <= i < input.len() ==> asset_wf(#[trigger] input[i]),
        decreases rest.len(),
    {
        let idx = rest.len() - 1;
        let a = rest.pop().unwrap();
        proof {
            assert(rest@ =~= input.subrange(0, rest@.len() as int));
            assert(a == input[idx as int]);
        }
        let key = crate::timestamp::capture_key(&a.capture_time);
        items.push((key, idx, a));
        proof {
            assert(idx_unique(items@)) by {
                assert(forall|k: int| 0 <= k < items@.len() ==> (#[trigger] items@[k]).1 == n - 1
                    - k);
            }
        }
    }
    // Stable insertion sort on (key, discovery index).
    let mut sorted: Vec<Keyed> = Vec::new();
    while items.len() > 0
        invariant
            sorted@.len() + items@.len() == n == input.len(),
            all_genuine(sorted@, input),
            all_genuine(items@, input),
            keyed_sorted(sorted@),
            idx_unique(sorted@),
            idx_unique(items@),
            idx_disjoint(sorted@, items@),
            forall|i: int| 0 <= i < input.len() ==> asset_wf(#[trigger] input[i]),
        decreases items.len(),
    {
        let it = items.pop().unwrap();
        let key = it.0;
        let idx = it.1;
        let ghost s_old = sorted@;
        let mut pos: usize = 0;
        while pos < sorted.len() && (sorted[pos].0 < key || (sorted[pos].0 == key && sorted[pos].1
            < idx))
            invariant
                pos <= sorted@.len(),
                forall|k: int|
                    0 <= k < pos ==> keyed_lt(#[trigger] sorted@[k], (key, idx, it.2)),
            decreases sorted@.len() - pos,
        {
            pos = pos + 1;
        }
        proof {
            // Everything at or after the insertion point is strictly
            // larger: the pair (key, idx) occurs nowhere in `sorted`.
            if (pos as int) < sorted@.len() {
                assert(sorted@[pos as int].1 != idx);
                assert(keyed_lt((key, idx, it.2), sorted@[pos as int]));
                assert(forall|k: int|
                    pos < k < sorted@.len() ==> keyed_lt(
                        (key, idx, it.2),
                        #[trigger] sorted@[k],
                    )) by {
                    assert(forall|k: int|
                        pos < k < sorted@.len() ==> keyed_lt(
                            sorted@[pos as int],
                            #[trigger] sorted@[k],
                        ));
                }
            }
        }
        sorted.insert(pos, it);
        proof {
            let s_new = sorted@;
            assert(s_new.len() == s_old.len() + 1);
            assert(forall|k: int| 0 <= k < pos ==> s_new[k] == s_old[k]);
            assert(s_new[pos as int] == it);
            assert(forall|k: int| pos < k < s_new.len() ==> s_new[k] == s_old[k - 1]);
            assert(it == (key, idx, it.2));
            assert(keyed_sorted(s_new)) by {
                assert(forall|k1: int, k2: int|
                    0 <= k1 < k2 < s_new.len() ==> keyed_lt(
                        #[trigger] s_new[k1],
                        #[trigger] s_new[k2],
                    )) by {
                    assert(forall|k1: int, k2: int|
                        0 <= k1 < k2 < s_old.len() ==> keyed_lt(
                            #[trigger] s_old[k1],
                            #[trigger] s_old[k2],
                        ));
                }
            }
            assert(idx_unique(s_new));
            assert(idx_disjoint(s_new, items@));
            assert(all_genuine(s_new, input));
        }
    }
    let ghost arranged = sorted@;
    // Assign identifiers in sorted order, draining from the back.
    let mut rev: Vec<MediaAsset> = Vec::new();
    proof {
        assert(arranged.subrange(0, arranged.len() as int) =~= arranged);
    }
    while sorted.len() > 0
        invariant
            sorted@.len() + rev@.len() == n == arranged.len(),
            sorted@ == arranged.subrange(0, sorted@.len() as int),
            forall|j: int|
                0 <= j < rev@.len() ==> {
                    let k = n - 1 - j;
                    &&& same_core(#[trigger] rev@[j], arranged[k].2)
                    &&& rev@[j].id == k + 1
                },
        decreases sorted.len(),
    {
        let k = sorted.len() - 1;
        let t = sorted.pop().unwrap();
        proof {
            assert(sorted@ =~= arranged.subrange(0, sorted@.len() as int));
            assert(t == arranged[k as int]);
        }
        let mut a = t.2;
        a.id = (k as u64) + 1;
        rev.push(a);
    }
    // Restore ascending order.
    let ghost rev_full = rev@;
    let mut assets: Vec<MediaAsset> = Vec::new();
    proof {
        assert(rev_full.subrange(0, rev_full.len() as int) =~= rev_full);
    }
    while rev.len() > 0
        invariant
            rev@.len() + assets@.len() == n == rev_full.len(),
            rev@ == rev_full.subrange(0, rev@.len() as int),
            forall|i: int| 0 <= i < assets@.len() ==> #[trigger] assets@[i] == rev_full[n - 1 - i],
        decreases rev.len(),
    {
        let a = rev.pop().unwrap();
        proof {
            assert(rev@ =~= rev_full.subrange(0, rev@.len() as int));
        }
        assets.push(a);
    }
    proof {
        assert(forall|i: int|
            0 <= i < n ==> same_core(#[trigger] assets@[i], arranged[i].2) && assets@[i].id == i
                + 1);
    }
    let first_capture_time = assets[0].capture_time;
    let last_capture_time = assets[n - 1].capture_time;
    let d = Dataset { assets, first_capture_time, last_capture_time };
    proof {
        assert(forall|i: int|
            0 <= i < n ==> time_key(#[trigger] d.assets@[i].capture_time) == arranged[i].0) by {
            assert(forall|i: int|
                0 <= i < n ==> same_core(#[trigger] assets@[i], arranged[i].2));
        }
        assert(dataset_wf(d));
        let perm = Seq::new(n as nat, |i: int| arranged[i].1 as int);
        assert(is_stable_arrangement(perm, input, d.assets@));
    }
    Ok(d)
}

/// Law: when the capture times are pairwise distinct, the dataset is
/// strictly ascending by capture time, and the identifiers are exactly
/// 1..=N in that order.
pub proof fn lemma_distinct_times_strictly_sorted(d: Dataset)
    requires
        dataset_wf(d),
        forall|i: int, j: int|
            0 <= i < j < d.assets@.len() ==> (#[trigger] d.assets@[i]).capture_time != (
            #[trigger] d.assets@[j]).capture_time,
    ensures
        forall|i: int, j: int|
            0 <= i < j < d.assets@.len() ==> time_key(#[trigger] d.assets@[i].capture_time)
                < time_key(#[trigger] d.assets@[j].capture_time),
        forall|i: int| 0 <= i < d.assets@.len() ==> (#[trigger] d.assets@[i]).id == i + 1,
{
    assert forall|i: int, j: int|
        0 <= i < j < d.assets@.len() implies time_key(#[trigger] d.assets@[i].capture_time)
        < time_key(#[trigger] d.assets@[j].capture_time) by {
        if time_key(d.assets@[i].capture_time) == time_key(d.assets@[j].capture_time) {
            crate::timestamp::lemma_time_key_injective(
                d.assets@[i].capture_time,
                d.assets@[j].capture_time,
            );
        }
    }
}

/// Law: the dataset's first and last capture times are the minimum and
/// maximum capture time over all its records.
pub proof fn lemma_range_is_min_max(d: Dataset)
    requires
        dataset_wf(d),
    ensures
        forall|i: int|
            0 <= i < d.assets@.len() ==> time_key(d.first_capture_time) <= time_key(
                #[trigger] d.assets@[i].capture_time,
            ) && time_key(#[trigger] d.assets@[i].capture_time) <= time_key(d.last_capture_time),
{
    assert forall|i: int| 0 <= i < d.assets@.len() implies time_key(d.first_capture_time)
        <= time_key(#[trigger] d.assets@[i].capture_time) && time_key(
        d.assets@[i].capture_time,
    ) <= time_key(d.last_capture_time) by {
        let last = d.assets@.len() - 1;
        if 0 < i {
            assert(time_key(d.assets@[0].capture_time) <= time_key(d.assets@[i].capture_time));
        }
        if i < last {
            assert(time_key(d.assets@[i].capture_time) <= time_key(d.assets@[last].capture_time));
        }
    }
}

} // verus!
