use vstd::prelude::*;
use crate::snapshot::{changed, get_sha_diff, merge_diff_old, merged, ShaFile};
use crate::upload::{
    paths_of, plan_uploads, remote_key_of, utc_tag_of, SandmanUploadedFile, MAX_TAG_SECS,
};

verus! {

/// What one cycle does with a new scan: the change-set to upload, the uploads
/// themselves, and the baseline to persist.
pub struct CyclePlan {
    pub change_set: ShaFile,
    pub uploads: Vec<SandmanUploadedFile>,
    pub merged: ShaFile,
}

/// Plans a cycle that runs at `now_secs` seconds since the epoch: the change-set of
/// `current` against `prior`, one upload per changed file under the cycle's tag,
/// and the new baseline, which is made whatever the uploads' outcome.
pub fn plan_cycle(prior: ShaFile, current: ShaFile, prefix: &str, now_secs: u64) -> (r: CyclePlan)
    requires
        prior.wf(),
        current.wf(),
        now_secs <= MAX_TAG_SECS,
    ensures
        r.change_set.wf(),
        r.change_set@ == changed(prior@, current@),
        r.change_set.stamp() == current.stamp(),
        r.uploads@.len() == r.change_set.paths().len(),
        forall|i: int|
            0 <= i < r.uploads@.len() ==> #[trigger] r.uploads@[i].path@ == r.change_set.paths()[i]
                && r.uploads@[i].remote_name@ == remote_key_of(
                prefix@,
                utc_tag_of(now_secs as int),
                r.change_set.paths()[i],
            ),
        paths_of(r.uploads@).no_duplicates(),
        r.merged.wf(),
        r.merged@ == merged(prior@, changed(prior@, current@)),
        r.merged.stamp() == current.stamp(),
{
    let change_set = get_sha_diff(&prior, current);
    let uploads = plan_uploads(&change_set, prefix, now_secs);
    let merged = merge_diff_old(prior, &change_set);
    CyclePlan { change_set, uploads, merged }
}

} // verus!
