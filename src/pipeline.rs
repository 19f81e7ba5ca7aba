use vstd::prelude::*;

use crate::name::{artifact_view, encode, CpsdFileName};
use crate::retention::{find_remove_files, job_artifacts, select_for_removal, RemoteEntry};
use crate::timestamp::Timestamp;

verus! {

/// Why one backup cycle failed; the job carries on at its next interval.
#[derive(Debug, Clone, Copy, PartialEq, Eq, Structural)]
pub enum CycleError {
    ListFailed,
    CompressionFailed,
    HashComputationFailed,
    RenameFailed,
    UploadFailed,
    PruneFailed,
}

/// Where a cycle stands.
#[derive(Debug, Clone, Copy, PartialEq, Eq, Structural)]
pub enum Stage {
    Listing,
    Compressing,
    Hashing,
    Renaming,
    Uploading,
    Pruning,
    Done,
    Failed(CycleError),
}

/// What the driver of a cycle reports after carrying out an action.
pub enum Event {
    /// The listing of the job's namespace, in store order.
    Listed(Vec<RemoteEntry>),
    /// The archiver finished; `None` when a signal ended it.
    ArchiverExited(Option<i32>),
    /// The digest suffix of the archive and the time to stamp it with.
    Hashed { suffix: String, at: Timestamp },
    Renamed,
    Uploaded,
    Removed,
    /// The action of the current stage did not succeed.
    StageFailed,
}

/// What the driver of a cycle does next.
#[derive(Debug)]
pub enum Action {
    /// List the job namespace of the store.
    List,
    /// Archive the source directory into the temporary file.
    Compress,
    /// Compute the content digest of the archive.
    Hash,
    /// Rename the temporary archive to this file name, in place.
    Rename(String),
    /// Stream the archive to this remote path, committing on success and aborting otherwise.
    Upload(String),
    /// Delete these remote paths in one batch.
    Remove(Vec<String>),
    /// The cycle is over.
    Finish,
}

/// One run of the pipeline for one job.
pub struct Cycle {
    pub job: String,
    pub keep: usize,
    pub stage: Stage,
    /// The listing taken at the start of the cycle.
    pub entries: Vec<RemoteEntry>,
    /// The artifact's file name, once the archive is hashed.
    pub file_name: String,
}

/// The archiver's exit statuses that count as success: 0, and 1, which
/// reports a source file that changed while it was read.
pub open spec fn archiver_succeeded(code: Option<i32>) -> bool {
    code == Some(0i32) || code == Some(1i32)
}

/// The error of a stage whose action failed.
pub open spec fn stage_error(stage: Stage) -> CycleError {
    match stage {
        Stage::Listing => CycleError::ListFailed,
        Stage::Compressing => CycleError::CompressionFailed,
        Stage::Hashing => CycleError::HashComputationFailed,
        Stage::Renaming => CycleError::RenameFailed,
        Stage::Uploading => CycleError::UploadFailed,
        _ => CycleError::PruneFailed,
    }
}

pub open spec fn is_finished(stage: Stage) -> bool {
    stage is Done || stage is Failed
}

/// The next stage. `nothing_to_prune` tells whether the retention rule selects
/// no path, in which case a finished upload ends the cycle at once. An event
/// that does not answer the current stage changes nothing.
pub open spec fn next_stage(stage: Stage, ev: Event, nothing_to_prune: bool) -> Stage {
    if is_finished(stage) {
        stage
    } else {
        match ev {
            Event::StageFailed => Stage::Failed(stage_error(stage)),
            Event::Listed(_) => if stage is Listing {
                Stage::Compressing
            } else {
                stage
            },
            Event::ArchiverExited(code) => if stage is Compressing {
                if archiver_succeeded(code) {
                    Stage::Hashing
                } else {
                    Stage::Failed(CycleError::CompressionFailed)
                }
            } else {
                stage
            },
            Event::Hashed { .. } => if stage is Hashing {
                Stage::Renaming
            } else {
                stage
            },
            Event::Renamed => if stage is Renaming {
                Stage::Uploading
            } else {
                stage
            },
            Event::Uploaded => if stage is Uploading {
                if nothing_to_prune {
                    Stage::Done
                } else {
                    Stage::Pruning
                }
            } else {
                stage
            },
            Event::Removed => if stage is Pruning {
                Stage::Done
            } else {
                stage
            },
        }
    }
}

impl Cycle {
    /// At least the artifact of this cycle survives pruning.
    pub open spec fn wf(self) -> bool {
        self.keep >= 1
    }

    pub open spec fn removal(self) -> Seq<Seq<char>> {
        select_for_removal(job_artifacts(self.entries@, self.job@), self.keep as nat)
    }

    /// The remote path of the artifact: the file name under the store root.
    pub open spec fn remote_path(self) -> Seq<char> {
        seq!['/'] + self.file_name@
    }

    /// `a` is what the driver must do in this cycle's stage.
    pub open spec fn asks_for(self, a: Action) -> bool {
        match self.stage {
            Stage::Listing => a is List,
            Stage::Compressing => a is Compress,
            Stage::Hashing => a is Hash,
            Stage::Renaming => a matches Action::Rename(n) && n@ == self.file_name@,
            Stage::Uploading => a matches Action::Upload(p) && p@ == self.remote_path(),
            Stage::Pruning => a matches Action::Remove(ps) && ps@.len() == self.removal().len()
                && forall|i: int|
                0 <= i < ps@.len() ==> #[trigger] ps@[i]@ == self.removal()[i],
            _ => a is Finish,
        }
    }
}

/// The archiver's arguments: zstd compression into `dest`, one exclusion per
/// pattern, and entries stored relative to `source`.
pub open spec fn archiver_args(dest: Seq<char>, excludes: Seq<Seq<char>>, source: Seq<char>) -> Seq<
    Seq<char>,
> {
    seq!["--zstd"@, "-cf"@, dest] + excludes.map_values(|e: Seq<char>| "--exclude="@ + e) + seq![
        "-C"@,
        source,
        "."@,
    ]
}

/// The command-line arguments of the archiver (`tar`) for one cycle.
pub fn tar_args(dest: &str, excludes: &Vec<String>, source: &str) -> (r: Vec<String>)
    ensures
        r@.len() == archiver_args(dest@, excludes@.map_values(|e: String| e@), source@).len(),
        forall|i: int|
            0 <= i < r@.len() ==> #[trigger] r@[i]@ == archiver_args(
                dest@,
                excludes@.map_values(|e: String| e@),
                source@,
            )[i],
{
    let ghost want = archiver_args(dest@, excludes@.map_values(|e: String| e@), source@);
    let mut r: Vec<String> = Vec::new();
    r.push("--zstd".to_owned());
    r.push("-cf".to_owned());
    r.push(dest.to_owned());
    let n = excludes.len();
    let mut i: usize = 0;
    while i < n
        invariant
            n == excludes@.len(),
            i <= n,
            want == archiver_args(dest@, excludes@.map_values(|e: String| e@), source@),
            r@.len() == 3 + i,
            forall|k: int| 0 <= k < r@.len() ==> #[trigger] r@[k]@ == want[k],
        decreases n - i,
    {
        let mut arg = "--exclude=".to_owned();
        arg.append(excludes[i].as_str());
        r.push(arg);
        i += 1;
    }
    r.push("-C".to_owned());
    r.push(source.to_owned());
    r.push(".".to_owned());
    r
}

/// Maps the archiver's exit status to the outcome of the compression stage.
pub fn compression_outcome(code: Option<i32>) -> (r: Result<(), CycleError>)
    ensures
        r is Ok <==> archiver_succeeded(code),
        r matches Err(e) ==> e == CycleError::CompressionFailed,
{
    match code {
        Some(0i32) | Some(1i32) => Ok(()),
        _ => Err(CycleError::CompressionFailed),
    }
}

impl Cycle {
    /// A cycle for job `job`, about to list the store.
    pub fn new(job: &str, keep: usize) -> (r: Cycle)
        requires
            keep >= 1,
        ensures
            r.wf(),
            r.job@ == job@,
            r.keep == keep,
            r.stage == Stage::Listing,
            r.entries@.len() == 0,
            r.file_name@.len() == 0,
    {
        Cycle {
            job: job.to_owned(),
            keep,
            stage: Stage::Listing,
            entries: Vec::new(),
            file_name: String::new(),
        }
    }

    /// What the driver must do now.
    pub fn action(&self) -> (r: Action)
        requires
            self.wf(),
        ensures
            self.asks_for(r),
    {
        match self.stage {
            Stage::Listing => Action::List,
            Stage::Compressing => Action::Compress,
            Stage::Hashing => Action::Hash,
            Stage::Renaming => Action::Rename(self.file_name.clone()),
            Stage::Uploading => {
                let mut p = "/".to_owned();
                proof {
                    reveal_strlit("/");
                }
                p.append(self.file_name.as_str());
                assert(p@ =~= self.remote_path());
                Action::Upload(p)
            },
            Stage::Pruning => Action::Remove(
                find_remove_files(self.entries.as_slice(), self.job.as_str(), self.keep),
            ),
            _ => Action::Finish,
        }
    }

    /// Takes in what the driver reports and returns the next action.
    pub fn advance(&mut self, ev: Event) -> (r: Action)
        requires
            old(self).wf(),
        ensures
            final(self).wf(),
            final(self).job == old(self).job,
            final(self).keep == old(self).keep,
            final(self).stage == next_stage(old(self).stage, ev, old(self).removal().len() == 0),
            final(self).entries@ == (match ev {
                Event::Listed(es) => if old(self).stage is Listing {
                    es@
                } else {
                    old(self).entries@
                },
                _ => old(self).entries@,
            }),
            final(self).file_name@ == (match ev {
                Event::Hashed { suffix, at } => if old(self).stage is Hashing {
                    encode(artifact_view(old(self).job@, at, suffix@))
                } else {
                    old(self).file_name@
                },
                _ => old(self).file_name@,
            }),
            final(self).asks_for(r),
    {
        let ghost nothing = self.removal().len() == 0;
        match self.stage {
            Stage::Done | Stage::Failed(_) => {
                return self.action();
            },
            _ => {},
        }
        match ev {
            Event::StageFailed => {
                let e = match self.stage {
                    Stage::Listing => CycleError::ListFailed,
                    Stage::Compressing => CycleError::CompressionFailed,
                    Stage::Hashing => CycleError::HashComputationFailed,
                    Stage::Renaming => CycleError::RenameFailed,
                    Stage::Uploading => CycleError::UploadFailed,
                    _ => CycleError::PruneFailed,
                };
                self.stage = Stage::Failed(e);
            },
            Event::Listed(es) => {
                if let Stage::Listing = self.stage {
                    self.entries = es;
                    self.stage = Stage::Compressing;
                }
            },
            Event::ArchiverExited(code) => {
                if let Stage::Compressing = self.stage {
                    self.stage = match compression_outcome(code) {
                        Ok(()) => Stage::Hashing,
                        Err(e) => Stage::Failed(e),
                    };
                }
            },
            Event::Hashed { suffix, at } => {
                if let Stage::Hashing = self.stage {
                    let name = CpsdFileName::for_artifact(self.job.as_str(), &at, suffix.as_str());
                    self.file_name = name.to_filename();
                    self.stage = Stage::Renaming;
                }
            },
            Event::Renamed => {
                if let Stage::Renaming = self.stage {
                    self.stage = Stage::Uploading;
                }
            },
            Event::Uploaded => {
                if let Stage::Uploading = self.stage {
                    let doomed = find_remove_files(
                        self.entries.as_slice(),
                        self.job.as_str(),
                        self.keep,
                    );
                    if doomed.len() == 0 {
                        self.stage = Stage::Done;
                    } else {
                        self.stage = Stage::Pruning;
                        return Action::Remove(doomed);
                    }
                }
            },
            Event::Removed => {
                if let Stage::Pruning = self.stage {
                    self.stage = Stage::Done;
                }
            },
        }
        self.action()
    }
}

/// The outcome of one finished cycle, kept for logging and scheduling only.
pub struct CycleResult {
    pub job_name: String,
    pub success: bool,
    /// The remote path written, when the upload was committed.
    pub uploaded_path: Option<String>,
    pub error: Option<CycleError>,
}

impl Cycle {
    /// The outcome, once the cycle is finished.
    pub fn result(&self) -> (r: Option<CycleResult>)
        ensures
            r is Some <==> is_finished(self.stage),
            r matches Some(res) ==> {
                &&& res.job_name@ == self.job@
                &&& res.success == (self.stage is Done)
                &&& res.error == (match self.stage {
                    Stage::Failed(e) => Some(e),
                    _ => None,
                })
                &&& res.uploaded_path is Some <==> (self.stage is Done || self.stage
                    == Stage::Failed(CycleError::PruneFailed))
                &&& res.uploaded_path matches Some(p) ==> p@ == self.remote_path()
            },
    {
        let (success, error) = match self.stage {
            Stage::Done => (true, None),
            Stage::Failed(e) => (false, Some(e)),
            _ => {
                return None;
            },
        };
        let uploaded = match self.stage {
            Stage::Done | Stage::Failed(CycleError::PruneFailed) => {
                let mut p = "/".to_owned();
                proof {
                    reveal_strlit("/");
                }
                p.append(self.file_name.as_str());
                assert(p@ =~= self.remote_path());
                Some(p)
            },
            _ => None,
        };
        Some(CycleResult { job_name: self.job.clone(), success, uploaded_path: uploaded, error })
    }
}

/// A cycle whose archiver fails ends failed at the compression stage, and a
/// failed cycle stays failed whatever is reported later and asks for nothing
/// but to finish: no upload and no deletion follows.
pub proof fn lemma_compression_failure_isolated(
    c: Cycle,
    code: Option<i32>,
    nothing_to_prune: bool,
)
    requires
        c.stage is Compressing,
        !archiver_succeeded(code),
    ensures
        next_stage(c.stage, Event::ArchiverExited(code), nothing_to_prune) == Stage::Failed(
            CycleError::CompressionFailed,
        ),
        forall|ev: Event, p: bool|
            #[trigger] next_stage(Stage::Failed(CycleError::CompressionFailed), ev, p)
                == Stage::Failed(CycleError::CompressionFailed),
        forall|a: Action|
            #[trigger] (Cycle { stage: Stage::Failed(CycleError::CompressionFailed), ..c }).asks_for(
                a,
            ) ==> a is Finish,
{
}

} // verus!
