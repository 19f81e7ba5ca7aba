use vstd::prelude::*;

use crate::name::{artifact_prefix, decode, str_equal, CpsdFileName};

verus! {

/// One item of an object-store listing.
#[derive(Debug, Clone)]
pub struct RemoteEntry {
    pub path: String,
    pub size: u64,
    pub is_file: bool,
}

/// A listed file whose name decodes to an artifact of `job`.
pub open spec fn is_job_artifact(e: RemoteEntry, job: Seq<char>) -> bool {
    e.is_file && match decode(e.path@) {
        Ok(n) => n.prefix == artifact_prefix() && n.name == job,
        Err(_) => false,
    }
}

/// The paths of the artifacts of `job`, in listing order (oldest first).
pub open spec fn job_artifacts(entries: Seq<RemoteEntry>, job: Seq<char>) -> Seq<Seq<char>>
    decreases entries.len(),
{
    if entries.len() == 0 {
        Seq::<Seq<char>>::empty()
    } else {
        let init = job_artifacts(entries.drop_last(), job);
        if is_job_artifact(entries.last(), job) {
            init.push(entries.last().path@)
        } else {
            init
        }
    }
}

/// How many of `n` generations go when `keep` must survive, counting the
/// one just uploaded, which the listing does not hold.
pub open spec fn removal_count(n: nat, keep: nat) -> nat {
    if n + 1 >= keep {
        (n + 1 - keep) as nat
    } else {
        0
    }
}

/// The oldest `removal_count` paths, newest of them first.
pub open spec fn select_for_removal(paths: Seq<Seq<char>>, keep: nat) -> Seq<Seq<char>> {
    let m = removal_count(paths.len(), keep);
    Seq::new(m, |i: int| paths[m - 1 - i])
}

fn is_job_artifact_exec(e: &RemoteEntry, job: &str) -> (r: bool)
    ensures
        r == is_job_artifact(*e, job@),
{
    if !e.is_file {
        return false;
    }
    match CpsdFileName::try_from_filename(e.path.as_str()) {
        Ok(n) => {
            proof {
                reveal_strlit("backup");
            }
            str_equal(n.prefix.as_str(), "backup") && str_equal(n.name.as_str(), job)
        },
        Err(_) => false,
    }
}

/// The paths to delete so that at most `keep` generations of job `name`
/// remain once the artifact uploaded in this cycle is counted.
pub fn find_remove_files(entries: &[RemoteEntry], name: &str, keep: usize) -> (r: Vec<String>)
    requires
        keep >= 1,
    ensures
        r@.len() == select_for_removal(job_artifacts(entries@, name@), keep as nat).len(),
        forall|i: int|
            0 <= i < r@.len() ==> #[trigger] r@[i]@ == select_for_removal(
                job_artifacts(entries@, name@),
                keep as nat,
            )[i],
{
    let n = entries.len();
    let mut found: Vec<String> = Vec::new();
    let mut i: usize = 0;
    while i < n
        invariant
            n == entries@.len(),
            i <= n,
            found@.len() == job_artifacts(entries@.take(i as int), name@).len(),
            forall|k: int|
                0 <= k < found@.len() ==> #[trigger] found@[k]@ == job_artifacts(
                    entries@.take(i as int),
                    name@,
                )[k],
        decreases n - i,
    {
        assert(entries@.take(i + 1).drop_last() =~= entries@.take(i as int));
        assert(entries@.take(i + 1).last() == entries@[i as int]);
        if is_job_artifact_exec(&entries[i], name) {
            found.push(entries[i].path.clone());
        }
        i += 1;
    }
    assert(entries@.take(n as int) =~= entries@);
    let ghost paths = job_artifacts(entries@, name@);
    let count = found.len();
    let m: usize = if count >= keep - 1 {
        count - (keep - 1)
    } else {
        0
    };
    let mut out: Vec<String> = Vec::new();
    let mut j: usize = 0;
    while j < m
        invariant
            m == removal_count(paths.len(), keep as nat),
            m <= found@.len(),
            found@.len() == paths.len(),
            forall|k: int| 0 <= k < found@.len() ==> #[trigger] found@[k]@ == paths[k],
            j <= m,
            out@.len() == j,
            forall|k: int| 0 <= k < j ==> #[trigger] out@[k]@ == paths[m - 1 - k],
        decreases m - j,
    {
        out.push(found[m - 1 - j].clone());
        j += 1;
    }
    out
}

/// The paths of a listing that holds only artifacts of one job.
pub proof fn lemma_all_job_artifacts(entries: Seq<RemoteEntry>, job: Seq<char>)
    requires
        forall|i: int| 0 <= i < entries.len() ==> is_job_artifact(#[trigger] entries[i], job),
    ensures
        job_artifacts(entries, job).len() == entries.len(),
        forall|i: int|
            0 <= i < entries.len() ==> #[trigger] job_artifacts(entries, job)[i]
                == entries[i].path@,
    decreases entries.len(),
{
    if entries.len() > 0 {
        let init = entries.drop_last();
        assert forall|i: int| 0 <= i < init.len() implies is_job_artifact(
            #[trigger] init[i],
            job,
        ) by {
            assert(init[i] == entries[i]);
        }
        lemma_all_job_artifacts(init, job);
        assert(is_job_artifact(entries[entries.len() - 1], job));
    }
}

/// Retention bound: of `n` chronologically listed artifacts of one job, with
/// `1 <= keep <= n`, exactly `n - (keep - 1)` are removed, and they are the
/// oldest ones (listed newest first).
pub proof fn lemma_retention_bound(entries: Seq<RemoteEntry>, job: Seq<char>, keep: nat)
    requires
        1 <= keep <= entries.len(),
        forall|i: int| 0 <= i < entries.len() ==> is_job_artifact(#[trigger] entries[i], job),
    ensures
        select_for_removal(job_artifacts(entries, job), keep).len() == entries.len() - (keep
            - 1),
        forall|i: int|
            0 <= i < entries.len() - (keep - 1) ==> #[trigger] select_for_removal(
                job_artifacts(entries, job),
                keep,
            )[i] == entries[entries.len() - keep - i].path@,
{
    lemma_all_job_artifacts(entries, job);
}

/// Retention no-op: with fewer than `keep` artifacts of the job listed,
/// nothing is removed.
pub proof fn lemma_retention_noop(entries: Seq<RemoteEntry>, job: Seq<char>, keep: nat)
    requires
        keep >= 1,
        job_artifacts(entries, job).len() < keep,
    ensures
        select_for_removal(job_artifacts(entries, job), keep).len() == 0,
{
}

} // verus!
