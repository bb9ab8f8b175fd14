use vstd::prelude::*;
use vstd::string::StringExecFns;
use crate::snapshot::ShaFile;

verus! {

/// A file that the remote store accepted: its local path and the key it was
/// stored under.
#[derive(Debug)]
pub struct SandmanUploadedFile {
    pub path: String,
    pub remote_name: String,
}

impl SandmanUploadedFile {
    pub fn new(path: String, remote_name: String) -> (r: SandmanUploadedFile)
        ensures
            r.path == path,
            r.remote_name == remote_name,
    {
        SandmanUploadedFile { path, remote_name }
    }
}

fn copy_file(f: &SandmanUploadedFile) -> (r: SandmanUploadedFile)
    ensures
        r == *f,
{
    SandmanUploadedFile { path: f.path.clone(), remote_name: f.remote_name.clone() }
}

/// The latest time, in seconds since the epoch, that a cycle tag is made for:
/// about the year 255000.
pub const MAX_TAG_SECS: u64 = 8_000_000_000_000;

/// The UTC time `secs` seconds after the epoch, written year-month-day--hour-minute-second.
pub uninterp spec fn utc_tag_of(secs: int) -> Seq<char>;

/// The first second, counted from the epoch, of the year 10000.
pub const YEAR_10000_SECS: u64 = 253_402_300_800;

/// `s` has the shape of a cycle tag, `YYYY-MM-DD--hh-mm-ss`: twenty characters,
/// dashes at the separators and decimal digits elsewhere.
pub open spec fn tag_shaped(s: Seq<char>) -> bool {
    &&& s.len() == 20
    &&& forall|i: int|
        0 <= i < 20 ==> if i == 4 || i == 7 || i == 10 || i == 11 || i == 14 || i == 17 {
            #[trigger] s[i] == '-'
        } else {
            '0' <= s[i] <= '9'
        }
}

/// Relies on chrono's DateTime::<Utc>::from_timestamp, which gives a time for every
/// `secs` up to `MAX_TAG_SECS` (well inside its range of years), and on
/// DateTime::format with the pattern `%Y-%m-%d--%H-%M-%S`, which writes a year
/// before 10000 with four digits and every other field with two.
#[verifier::external_body]
fn utc_tag(secs: u64) -> (r: String)
    requires
        secs <= MAX_TAG_SECS,
    ensures
        r@ == utc_tag_of(secs as int),
        secs < YEAR_10000_SECS ==> tag_shaped(r@),
{
    chrono::DateTime::<chrono::Utc>::from_timestamp(secs as i64, 0).unwrap().format(
        "%Y-%m-%d--%H-%M-%S",
    ).to_string()
}

/// The key of a file in the remote store: `{prefix}/{tag}/{path}`.
pub open spec fn remote_key_of(prefix: Seq<char>, tag: Seq<char>, path: Seq<char>) -> Seq<char> {
    prefix + seq!['/'] + tag + seq!['/'] + path
}

/// The key of the file at `path` in the remote store, under the cycle's `tag`.
pub fn remote_key(prefix: &str, tag: &str, path: &str) -> (r: String)
    ensures
        r@ == remote_key_of(prefix@, tag@, path@),
{
    proof {
        reveal_strlit("/");
    }
    let mut key = prefix.to_owned();
    key.append("/");
    key.append(tag);
    key.append("/");
    key.append(path);
    key
}

/// The uploads of a change-set: one for each of its files, in its order, keyed
/// `{prefix}/{tag}/{path}`.
pub fn plan_uploads_tagged(diff: &ShaFile, prefix: &str, tag: &str) -> (r: Vec<SandmanUploadedFile>)
    requires
        diff.wf(),
    ensures
        r@.len() == diff.paths().len(),
        forall|i: int|
            0 <= i < r@.len() ==> #[trigger] r@[i].path@ == diff.paths()[i] && r@[i].remote_name@
                == remote_key_of(prefix@, tag@, diff.paths()[i]),
        paths_of(r@) == diff.paths(),
        paths_of(r@).no_duplicates(),
{
    let mut out: Vec<SandmanUploadedFile> = Vec::new();
    let mut i: usize = 0;
    while i < diff.len()
        invariant
            diff.wf(),
            i <= diff.paths().len(),
            out@.len() == i,
            forall|j: int|
                0 <= j < i ==> #[trigger] out@[j].path@ == diff.paths()[j] && out@[j].remote_name@
                    == remote_key_of(prefix@, tag@, diff.paths()[j]),
        decreases diff.paths().len() - i,
    {
        let (path, _) = diff.entry(i);
        let key = remote_key(prefix, tag, path.as_str());
        out.push(SandmanUploadedFile::new(path.clone(), key));
        i += 1;
    }
    proof {
        diff.lemma_paths();
        assert(paths_of(out@) =~= diff.paths());
    }
    out
}

/// The uploads of a change-set for a cycle that runs at `now_secs` seconds since the
/// epoch: every key holds the same tag, the cycle's UTC time.
pub fn plan_uploads(diff: &ShaFile, prefix: &str, now_secs: u64) -> (r: Vec<SandmanUploadedFile>)
    requires
        diff.wf(),
        now_secs <= MAX_TAG_SECS,
    ensures
        r@.len() == diff.paths().len(),
        forall|i: int|
            0 <= i < r@.len() ==> #[trigger] r@[i].path@ == diff.paths()[i] && r@[i].remote_name@
                == remote_key_of(prefix@, utc_tag_of(now_secs as int), diff.paths()[i]),
        paths_of(r@) == diff.paths(),
        paths_of(r@).no_duplicates(),
        now_secs < YEAR_10000_SECS ==> tag_shaped(utc_tag_of(now_secs as int)),
{
    let tag = utc_tag(now_secs);
    plan_uploads_tagged(diff, prefix, tag.as_str())
}

/// The planned uploads that succeeded, in order: the `i`-th of `planned` is kept
/// exactly when `succeeded` holds `true` at `i`.
pub open spec fn kept(planned: Seq<SandmanUploadedFile>, succeeded: Seq<bool>) -> Seq<
    SandmanUploadedFile,
>
    decreases planned.len(),
{
    if planned.len() == 0 {
        Seq::empty()
    } else {
        let i = planned.len() - 1;
        let rest = kept(planned.drop_last(), succeeded);
        if i < succeeded.len() && succeeded[i] {
            rest.push(planned.last())
        } else {
            rest
        }
    }
}

/// The paths of `files`, in order.
pub open spec fn paths_of(files: Seq<SandmanUploadedFile>) -> Seq<Seq<char>> {
    files.map_values(|f: SandmanUploadedFile| f.path@)
}

/// The uploaded-files list of a cycle: the planned uploads whose outcome, at the
/// same index of `succeeded`, is a success. A failed upload takes nothing from the
/// others.
pub fn collect_uploaded(planned: &Vec<SandmanUploadedFile>, succeeded: &Vec<bool>) -> (r: Vec<
    SandmanUploadedFile,
>)
    ensures
        r@ == kept(planned@, succeeded@),
{
    let mut out: Vec<SandmanUploadedFile> = Vec::new();
    let mut i: usize = 0;
    while i < planned.len()
        invariant
            i <= planned@.len(),
            out@ == kept(planned@.take(i as int), succeeded@),
        decreases planned@.len() - i,
    {
        proof {
            assert(planned@.take(i + 1).drop_last() =~= planned@.take(i as int));
        }
        if i < succeeded.len() && succeeded[i] {
            out.push(copy_file(&planned[i]));
        }
        i += 1;
    }
    proof {
        assert(planned@.take(i as int) =~= planned@);
    }
    out
}

/// The paths that cleanup deletes, given a target's flag and its uploaded-files list.
pub open spec fn deleted(cleanable: bool, uploaded: Seq<SandmanUploadedFile>) -> Seq<Seq<char>> {
    if cleanable {
        paths_of(uploaded)
    } else {
        Seq::empty()
    }
}

/// The local files that cleanup deletes after a cycle: those of the uploaded-files
/// list when the target is cleanable, and none otherwise.
pub fn cleanup_list(cleanable: bool, uploaded: &Vec<SandmanUploadedFile>) -> (r: Vec<String>)
    ensures
        r@.map_values(|p: String| p@) == deleted(cleanable, uploaded@),
{
    let mut out: Vec<String> = Vec::new();
    if cleanable {
        let mut i: usize = 0;
        while i < uploaded.len()
            invariant
                i <= uploaded@.len(),
                out@.len() == i,
                forall|j: int| 0 <= j < i ==> #[trigger] out@[j]@ == uploaded@[j].path@,
            decreases uploaded@.len() - i,
        {
            out.push(uploaded[i].path.clone());
            i += 1;
        }
    }
    proof {
        assert(out@.map_values(|p: String| p@) =~= deleted(cleanable, uploaded@));
    }
    out
}

proof fn lemma_kept_members(planned: Seq<SandmanUploadedFile>, succeeded: Seq<bool>, f: SandmanUploadedFile)
    ensures
        kept(planned, succeeded).contains(f) <==> exists|i: int|
            0 <= i < planned.len() && i < succeeded.len() && succeeded[i] && planned[i] == f,
    decreases planned.len(),
{
    if planned.len() > 0 {
        let d = planned.drop_last();
        let n = planned.len() - 1;
        lemma_kept_members(d, succeeded, f);
        let k = kept(planned, succeeded);
        let kd = kept(d, succeeded);
        if exists|i: int| 0 <= i < d.len() && i < succeeded.len() && succeeded[i] && d[i] == f {
            let i = choose|i: int| 0 <= i < d.len() && i < succeeded.len() && succeeded[i] && d[i] == f;
            assert(planned[i] == f);
            if n < succeeded.len() && succeeded[n] {
                let j = choose|j: int| 0 <= j < kd.len() && kd[j] == f;
                assert(k[j] == f);
            }
        }
        if k.contains(f) {
            if n < succeeded.len() && succeeded[n] {
                let j = choose|j: int| 0 <= j < k.len() && k[j] == f;
                if j < kd.len() {
                    assert(kd[j] == f);
                }
            }
        }
        if exists|i: int| 0 <= i < planned.len() && i < succeeded.len() && succeeded[i] && planned[i] == f {
            let i = choose|i: int|
                0 <= i < planned.len() && i < succeeded.len() && succeeded[i] && planned[i] == f;
            if i < n {
                assert(d[i] == f);
            } else {
                assert(k.last() == f);
            }
        }
    }
}

/// A failed upload does not hold back the others: when the upload of the `a`-th
/// planned file fails and that of the `b`-th succeeds, the uploaded-files list
/// holds the `b`-th and not the `a`-th (the planned paths being distinct, as
/// those of a change-set are).
pub proof fn lemma_upload_failure_isolation(
    planned: Seq<SandmanUploadedFile>,
    succeeded: Seq<bool>,
    a: int,
    b: int,
)
    requires
        planned.len() == succeeded.len(),
        paths_of(planned).no_duplicates(),
        0 <= a < planned.len(),
        0 <= b < planned.len(),
        !succeeded[a],
        succeeded[b],
    ensures
        kept(planned, succeeded).contains(planned[b]),
        !kept(planned, succeeded).contains(planned[a]),
{
    lemma_kept_members(planned, succeeded, planned[b]);
    lemma_kept_members(planned, succeeded, planned[a]);
    if kept(planned, succeeded).contains(planned[a]) {
        let i = choose|i: int|
            0 <= i < planned.len() && i < succeeded.len() && succeeded[i] && planned[i] == planned[a];
        assert(paths_of(planned)[i] == paths_of(planned)[a]);
    }
}

/// Cleanup deletes only what was uploaded: every path it deletes is that of a
/// planned upload that succeeded, and the path of a planned upload that failed is
/// never deleted (the planned paths being distinct).
pub proof fn lemma_cleanup_scoping(
    cleanable: bool,
    planned: Seq<SandmanUploadedFile>,
    succeeded: Seq<bool>,
    a: int,
)
    requires
        planned.len() == succeeded.len(),
        paths_of(planned).no_duplicates(),
        0 <= a < planned.len(),
        !succeeded[a],
    ensures
        forall|p: Seq<char>| #[trigger]
            deleted(cleanable, kept(planned, succeeded)).contains(p)
                ==> exists|i: int| 0 <= i < planned.len() && succeeded[i] && planned[i].path@ == p,
        !deleted(cleanable, kept(planned, succeeded)).contains(planned[a].path@),
{
    let k = kept(planned, succeeded);
    assert forall|p: Seq<char>| #[trigger]
        deleted(cleanable, k).contains(p) implies exists|i: int|
        0 <= i < planned.len() && succeeded[i] && planned[i].path@ == p by {
        let j = choose|j: int| 0 <= j < paths_of(k).len() && paths_of(k)[j] == p;
        lemma_kept_members(planned, succeeded, k[j]);
        assert(k.contains(k[j]));
    }
    if cleanable && paths_of(k).contains(planned[a].path@) {
        let j = choose|j: int| 0 <= j < paths_of(k).len() && paths_of(k)[j] == planned[a].path@;
        lemma_kept_members(planned, succeeded, k[j]);
        assert(k.contains(k[j]));
        let i = choose|i: int|
            0 <= i < planned.len() && i < succeeded.len() && succeeded[i] && planned[i] == k[j];
        assert(paths_of(planned)[i] == paths_of(planned)[a]);
    }
}

} // verus!
