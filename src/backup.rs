//! The backup run orchestrator: a state machine over the phases init → backup →
//! verify → prune, which decides each next engine step and the run's outcome.
//! Whoever drives it performs each action and reports what happened.
use vstd::prelude::*;
use crate::config::{
    backed_up_at, clone_opt, find_drive, find_drive_index, repo_id_recorded, seen_at,
    AgentConfig, BackupSource, TrustedDrive,
};
use crate::errors::AgentError;
use crate::restic::{views, BackupSummary};
use crate::retention::RetentionPolicy;
use crate::state::{failed_run, run_failed, run_in_progress, AgentRuntimeState, RunPhase, RunResult, RunStatus};
use crate::text::{chars_of, chars_start_with, copy_str, join_path, join_path_str, prefix, prefix_chars, starts_with, string_of};

verus! {

/// Relies on `BaseDirs::home_dir`: the user's home directory, when it can be found.
#[verifier::external_body]
fn home_dir() -> Option<String> {
    directories::BaseDirs::new().map(|b| b.home_dir().to_string_lossy().into_owned())
}

/// A source path with a leading `~/` resolved against `home`.
pub open spec fn expand_path(path: Seq<char>, home: Seq<char>) -> Seq<char> {
    if starts_with(path, "~/"@) {
        join_path(home, path.skip(2))
    } else {
        path
    }
}

pub open spec fn expanded(sources: Seq<BackupSource>, home: Seq<char>, r: Seq<String>) -> bool {
    &&& r.len() == sources.len()
    &&& forall|i: int| 0 <= i < r.len() ==> (#[trigger] r[i])@ == expand_path(sources[i].path@, home)
}

/// The paths to back up to `drive_id`, with `~/` resolved against `home`.
pub fn expand_sources_in(config: &AgentConfig, drive_id: &str, home: &str) -> (r: Vec<String>)
    ensures
        expanded(config.sources_for(drive_id@), home@, r@),
{
    let list = config.backup_sources_for_drive(drive_id);
    let tilde = chars_of("~/");
    proof {
        reveal_strlit("~/");
    }
    let mut r: Vec<String> = Vec::new();
    let mut i: usize = 0;
    while i < list.len()
        invariant
            i <= list.len(),
            list@ == config.sources_for(drive_id@),
            tilde@ == "~/"@,
            tilde@.len() == 2,
            expanded(list@.take(i as int), home@, r@),
        decreases list.len() - i,
    {
        let p = chars_of(list[i].path.as_str());
        let e = if chars_start_with(&p, &tilde) {
            let rest = string_of(&prefix_skip(&p, 2));
            join_path_str(home, rest.as_str())
        } else {
            copy_str(list[i].path.as_str())
        };
        r.push(e);
        proof {
            let t = list@.take(i as int + 1);
            assert forall|k: int| 0 <= k < r@.len() implies (#[trigger] r@[k])@ == expand_path(
                t[k].path@,
                home@,
            ) by {
                if k < i {
                    assert(t[k] == list@.take(i as int)[k]);
                }
            }
        }
        i += 1;
    }
    assert(list@.take(list.len() as int) =~= list@);
    r
}

/// `cs` without its first `n` characters.
fn prefix_skip(cs: &Vec<char>, n: usize) -> (r: Vec<char>)
    requires
        n <= cs.len(),
    ensures
        r@ == cs@.skip(n as int),
{
    let mut r: Vec<char> = Vec::new();
    let mut i: usize = n;
    while i < cs.len()
        invariant
            n <= i <= cs.len(),
            r@ == cs@.subrange(n as int, i as int),
        decreases cs.len() - i,
    {
        r.push(cs[i]);
        assert(cs@.subrange(n as int, i as int + 1) =~= cs@.subrange(n as int, i as int).push(
            cs@[i as int],
        ));
        i += 1;
    }
    assert(cs@.subrange(n as int, cs.len() as int) =~= cs@.skip(n as int));
    r
}

/// The paths to back up to `drive_id`; `None` when the home directory is unknown.
pub fn expand_sources(config: &AgentConfig, drive_id: &str) -> (r: Option<Vec<String>>)
    ensures
        r is Some ==> exists|h: Seq<char>| #[trigger] expanded(config.sources_for(drive_id@), h, r->0@),
{
    match home_dir() {
        Some(h) => {
            let v = expand_sources_in(config, drive_id, h.as_str());
            assert(expanded(config.sources_for(drive_id@), h@, v@));
            let r = Some(v);
            assert(r->0@ == v@);
            assert(exists|hh: Seq<char>| #[trigger] expanded(config.sources_for(drive_id@), hh, r->0@));
            r
        },
        None => None,
    }
}

/// The name a run is announced under: the drive's label, else the first twelve
/// characters of its identity.
pub open spec fn run_label_of(config: AgentConfig, id: Seq<char>) -> Seq<char> {
    match find_drive(config.trusted_drives@, id) {
        Some(i) => match config.trusted_drives@[i].label {
            Some(l) => l@,
            None => prefix(id, 12),
        },
        None => prefix(id, 12),
    }
}

pub fn run_label(config: &AgentConfig, drive_id: &str) -> (r: String)
    ensures
        r@ == run_label_of(*config, drive_id@),
{
    match find_drive_index(&config.trusted_drives, drive_id) {
        Some(i) => match &config.trusted_drives[i].label {
            Some(l) => copy_str(l.as_str()),
            None => string_of(&prefix_chars(&chars_of(drive_id), 12)),
        },
        None => string_of(&prefix_chars(&chars_of(drive_id), 12)),
    }
}

#[derive(Debug, Clone, Copy, PartialEq, Eq, Structural)]
pub enum RunStage {
    CheckingRepository,
    InitializingRepository,
    RecordingRepository,
    BackingUp,
    VerifyingQuick,
    VerifyingDeep,
    Pruning,
    Done,
}

/// A step after the backup that failed without failing the run.
#[derive(Debug, Clone, Copy, PartialEq, Eq, Structural)]
pub enum Degradation {
    QuickVerify,
    DeepVerify,
    Retention,
}

/// What happened to the last action.
pub enum RunEvent {
    /// Whether the repository already exists.
    RepositoryChecked(bool),
    /// The repository was created; this is its id.
    RepositoryInitialized(String),
    /// The new repository id was saved with the trust store and, as far as
    /// possible, on the medium's marker.
    RepositoryRecorded,
    /// The engine's backup finished with this summary.
    BackupCompleted(BackupSummary),
    StepSucceeded,
    StepFailed(AgentError),
}

/// What to do next.
pub enum RunAction {
    /// Report whether a repository exists at this path.
    CheckRepository(String),
    /// Initialize a repository at this path and report its id.
    InitRepository(String),
    /// Save the trust store, which now holds this repository id, and write it onto
    /// the marker; a marker write failure is not an error.
    RecordRepositoryId(String),
    /// Back up `sources` into the repository, streaming progress.
    Backup { repo_path: String, sources: Vec<String> },
    VerifyQuick(String),
    VerifyDeep(String),
    /// Forget and prune with these retention arguments.
    Prune { repo_path: String, args: Vec<String> },
    /// The run is over; the runtime state holds its result.
    Finished(Result<RunResult, AgentError>),
}

pub struct BackupRun {
    pub drive_id: String,
    pub started_epoch: u64,
    pub repo_path: String,
    /// The paths to back up; `None` when they could not be resolved.
    pub sources: Option<Vec<String>>,
    pub quick_verify: bool,
    pub deep_verify: bool,
    pub retention: RetentionPolicy,
    pub stage: RunStage,
    pub summary: BackupSummary,
    /// The last post-backup step that failed.
    pub degraded: Option<Degradation>,
}

/// Why the sources rule out a backup, if they do.
pub open spec fn sources_error(sources: Option<Vec<String>>) -> Option<AgentError> {
    match sources {
        None => Some(AgentError::Config),
        Some(v) => if v@.len() == 0 {
            Some(AgentError::NoSources)
        } else {
            None
        },
    }
}

pub open spec fn is_step_failure(ev: RunEvent) -> bool {
    match ev {
        RunEvent::StepFailed(_) => true,
        _ => false,
    }
}

pub open spec fn is_step_outcome(ev: RunEvent) -> bool {
    match ev {
        RunEvent::StepSucceeded => true,
        RunEvent::StepFailed(_) => true,
        _ => false,
    }
}

/// The message of a completed run.
pub open spec fn completion_message(interrupted: bool, d: Option<Degradation>) -> Seq<char> {
    if interrupted {
        "Interrupted (drive disconnected)"@
    } else {
        match d {
            None => "Backup completed"@,
            Some(Degradation::QuickVerify) => "Backup completed, but verification failed"@,
            Some(Degradation::DeepVerify) => "Backup completed, but deep verification failed"@,
            Some(Degradation::Retention) => "Backup completed, but retention failed"@,
        }
    }
}

/// The status of a completed run: failed when its drive went away, partial when a
/// later step failed, else success.
pub open spec fn completion_status(interrupted: bool, d: Option<Degradation>) -> RunStatus {
    if interrupted {
        RunStatus::Failed
    } else if d is Some {
        RunStatus::Partial
    } else {
        RunStatus::Success
    }
}

/// The repository id recorded for `id` in the trust store.
pub open spec fn recorded_repo_id(config: AgentConfig, id: Seq<char>) -> Option<String> {
    match find_drive(config.trusted_drives@, id) {
        Some(i) => config.trusted_drives@[i].repository_id,
        None => None,
    }
}

pub open spec fn run_completed(
    r: RunResult,
    run: BackupRun,
    connected: bool,
    now: u64,
    repo_id: Option<String>,
) -> bool {
    &&& r.status == completion_status(!connected, run.degraded)
    &&& r.phase == RunPhase::Completed
    &&& r.started_epoch == run.started_epoch
    &&& r.finished_epoch == Some(now)
    &&& r.message@ == completion_message(!connected, run.degraded)
    &&& r.interrupted == !connected
    &&& r.snapshot_id == run.summary.snapshot_id
    &&& r.repository_id == repo_id
    &&& r.data_added == run.summary.data_added
    &&& r.files_processed == run.summary.files_processed
}

/// Only the last run changed, and it now shows `phase` in progress.
pub open spec fn published(
    s: AgentRuntimeState,
    t: AgentRuntimeState,
    phase: RunPhase,
    message: Seq<char>,
    started: u64,
    snapshot_id: Option<String>,
) -> bool {
    &&& only_last_run_changed(s, t)
    &&& match t.last_run {
        Some(lr) => run_in_progress(phase, message, started, snapshot_id, lr),
        None => false,
    }
}

/// The trusted drives after a run of `id` completed at `now`: last seen then, and,
/// unless the run failed because its drive went away, last backed up then with
/// `snapshot_id`.
pub open spec fn bookkept(
    ds: Seq<TrustedDrive>,
    id: Seq<char>,
    now: u64,
    snapshot_id: Option<String>,
    connected: bool,
) -> Seq<TrustedDrive> {
    if connected {
        backed_up_at(seen_at(ds, id, now), id, now, snapshot_id)
    } else {
        seen_at(ds, id, now)
    }
}

/// Nothing but the last run changed.
pub open spec fn only_last_run_changed(s: AgentRuntimeState, t: AgentRuntimeState) -> bool {
    &&& t.config == s.config
    &&& t.drive_status == s.drive_status
    &&& t.in_flight == s.in_flight
    &&& t.restore == s.restore
}

impl BackupRun {
    /// The stage after a finished step at `from`, given the degradation so far.
    pub open spec fn stage_after(self, from: RunStage, d: Option<Degradation>) -> RunStage {
        let prune = self.retention.enabled && d is None;
        match from {
            RunStage::BackingUp => if self.quick_verify {
                RunStage::VerifyingQuick
            } else if self.deep_verify {
                RunStage::VerifyingDeep
            } else if prune {
                RunStage::Pruning
            } else {
                RunStage::Done
            },
            RunStage::VerifyingQuick => if self.deep_verify {
                RunStage::VerifyingDeep
            } else if prune {
                RunStage::Pruning
            } else {
                RunStage::Done
            },
            RunStage::VerifyingDeep => if prune {
                RunStage::Pruning
            } else {
                RunStage::Done
            },
            _ => RunStage::Done,
        }
    }

    /// The error that ends the run when `ev` comes at the current stage, if any: a
    /// failure before the backup finished, sources that rule it out, or an event
    /// out of order.
    pub open spec fn fatal(self, ev: RunEvent) -> Option<AgentError> {
        match self.stage {
            RunStage::CheckingRepository => match ev {
                RunEvent::RepositoryChecked(exists) => if exists {
                    sources_error(self.sources)
                } else {
                    None
                },
                RunEvent::StepFailed(e) => Some(e),
                _ => Some(AgentError::Engine),
            },
            RunStage::InitializingRepository => match ev {
                RunEvent::RepositoryInitialized(_) => None,
                RunEvent::StepFailed(e) => Some(e),
                _ => Some(AgentError::Engine),
            },
            RunStage::RecordingRepository => match ev {
                RunEvent::RepositoryRecorded => sources_error(self.sources),
                RunEvent::StepFailed(e) => Some(e),
                _ => Some(AgentError::Engine),
            },
            RunStage::BackingUp => match ev {
                RunEvent::BackupCompleted(_) => None,
                RunEvent::StepFailed(e) => Some(e),
                _ => Some(AgentError::Engine),
            },
            _ => if is_step_outcome(ev) {
                None
            } else {
                Some(AgentError::Engine)
            },
        }
    }

    /// The degradation after `ev`: a failed verification or pruning step is recorded.
    pub open spec fn degraded_after(self, ev: RunEvent) -> Option<Degradation> {
        if is_step_failure(ev) {
            match self.stage {
                RunStage::VerifyingQuick => Some(Degradation::QuickVerify),
                RunStage::VerifyingDeep => Some(Degradation::DeepVerify),
                RunStage::Pruning => Some(Degradation::Retention),
                _ => self.degraded,
            }
        } else {
            self.degraded
        }
    }

    pub open spec fn stage_next(self, ev: RunEvent) -> RunStage {
        if self.fatal(ev) is Some {
            RunStage::Done
        } else {
            match self.stage {
                RunStage::CheckingRepository => match ev {
                    RunEvent::RepositoryChecked(false) => RunStage::InitializingRepository,
                    _ => RunStage::BackingUp,
                },
                RunStage::InitializingRepository => RunStage::RecordingRepository,
                RunStage::RecordingRepository => RunStage::BackingUp,
                RunStage::Pruning => RunStage::Done,
                RunStage::Done => RunStage::Done,
                _ => self.stage_after(self.stage, self.degraded_after(ev)),
            }
        }
    }

    /// `a` is the action that the current stage asks for.
    pub open spec fn asks(self, a: RunAction) -> bool {
        match self.stage {
            RunStage::CheckingRepository => match a {
                RunAction::CheckRepository(p) => p@ == self.repo_path@,
                _ => false,
            },
            RunStage::InitializingRepository => match a {
                RunAction::InitRepository(p) => p@ == self.repo_path@,
                _ => false,
            },
            RunStage::RecordingRepository => a is RecordRepositoryId,
            RunStage::BackingUp => match a {
                RunAction::Backup { repo_path, sources } => repo_path@ == self.repo_path@
                    && self.sources is Some && views(sources@) == views(self.sources->0@),
                _ => false,
            },
            RunStage::VerifyingQuick => match a {
                RunAction::VerifyQuick(p) => p@ == self.repo_path@,
                _ => false,
            },
            RunStage::VerifyingDeep => match a {
                RunAction::VerifyDeep(p) => p@ == self.repo_path@,
                _ => false,
            },
            RunStage::Pruning => match a {
                RunAction::Prune { repo_path, args } => repo_path@ == self.repo_path@
                    && args.deep_view() == self.retention.forget_args(),
                _ => false,
            },
            RunStage::Done => a is Finished,
        }
    }

    /// The run's settings and identity are the same in `self` and `o`.
    pub open spec fn same_run(self, o: BackupRun) -> bool {
        &&& self.drive_id == o.drive_id
        &&& self.started_epoch == o.started_epoch
        &&& self.repo_path == o.repo_path
        &&& self.sources == o.sources
        &&& self.quick_verify == o.quick_verify
        &&& self.deep_verify == o.deep_verify
        &&& self.retention == o.retention
    }

    /// Opens a run of `drive_id` mounted at `mount_path`, publishing its first phase.
    /// An unknown drive ends it at once.
    pub fn start(
        state: &mut AgentRuntimeState,
        drive_id: &str,
        mount_path: &str,
        sources: Option<Vec<String>>,
        started_epoch: u64,
    ) -> (r: (BackupRun, RunAction))
        requires
            old(state).wf(),
        ensures
            final(state).wf(),
            r.0.drive_id@ == drive_id@,
            r.0.started_epoch == started_epoch,
            r.0.sources == sources,
            r.0.quick_verify == old(state).config.quick_verify,
            r.0.deep_verify == old(state).config.deep_verify,
            r.0.retention == old(state).config.retention,
            r.0.degraded is None,
            r.0.summary.snapshot_id is None,
            only_last_run_changed(*old(state), *final(state)),
            r.0.asks(r.1),
            match find_drive(old(state).config.trusted_drives@, drive_id@) {
                Some(i) => {
                    &&& r.0.stage == RunStage::CheckingRepository
                    &&& r.0.repo_path@ == join_path(
                        mount_path@,
                        old(state).config.trusted_drives@[i].repository_path@,
                    )
                    &&& final(state).last_run matches Some(lr) && run_in_progress(
                        RunPhase::BackingUp,
                        "Starting backup"@,
                        started_epoch,
                        None,
                        lr,
                    )
                },
                None => {
                    &&& r.0.stage == RunStage::Done
                    &&& r.1 matches RunAction::Finished(Err(e)) && e == AgentError::NotFound
                    &&& final(state).last_run matches Some(lr) && run_failed(
                        lr,
                        started_epoch,
                        started_epoch,
                        !old(state).is_connected_drive(drive_id@),
                    )
                },
            },
    {
        state.set_phase(RunPhase::BackingUp, "Starting backup", started_epoch, None);
        let repo = state.config.repository_path_for(drive_id, mount_path);
        let mut run = BackupRun {
            drive_id: copy_str(drive_id),
            started_epoch,
            repo_path: String::new(),
            sources,
            quick_verify: state.config.quick_verify,
            deep_verify: state.config.deep_verify,
            retention: state.config.retention,
            stage: RunStage::CheckingRepository,
            summary: BackupSummary::empty(),
            degraded: None,
        };
        match repo {
            Some(p) => {
                run.repo_path = p;
                let a = RunAction::CheckRepository(copy_str(run.repo_path.as_str()));
                (run, a)
            },
            None => {
                let a = run.fail(state, AgentError::NotFound, started_epoch);
                (run, a)
            },
        }
    }

    /// Ends the run with error `e` at time `now`.
    fn fail(&mut self, state: &mut AgentRuntimeState, e: AgentError, now: u64) -> (r: RunAction)
        ensures
            final(self).stage == RunStage::Done,
            final(self).same_run(*old(self)),
            final(self).summary == old(self).summary,
            final(self).degraded == old(self).degraded,
            r matches RunAction::Finished(Err(x)) && x == e,
            final(state).last_run matches Some(lr) && run_failed(
                lr,
                old(self).started_epoch,
                now,
                e == AgentError::Interrupted || !old(state).is_connected_drive(old(self).drive_id@),
            ),
            only_last_run_changed(*old(state), *final(state)),
    {
        let connected = state.drive_connected(self.drive_id.as_str());
        let interrupted = e == AgentError::Interrupted || !connected;
        state.last_run = Some(failed_run(self.started_epoch, now, interrupted));
        self.stage = RunStage::Done;
        RunAction::Finished(Err(e))
    }

    /// Ends the run after its last step, at time `now`.
    fn complete(&mut self, state: &mut AgentRuntimeState, now: u64) -> (r: RunAction)
        requires
            old(state).wf(),
        ensures
            final(state).wf(),
            final(self).stage == RunStage::Done,
            final(self).same_run(*old(self)),
            final(self).summary == old(self).summary,
            final(self).degraded == old(self).degraded,
            r matches RunAction::Finished(Ok(res)) && run_completed(
                res,
                *final(self),
                old(state).is_connected_drive(old(self).drive_id@),
                now,
                recorded_repo_id(old(state).config, old(self).drive_id@),
            ) && final(state).last_run == Some(res),
            final(state).config.trusted_drives@ == bookkept(
                old(state).config.trusted_drives@,
                old(self).drive_id@,
                now,
                old(self).summary.snapshot_id,
                old(state).is_connected_drive(old(self).drive_id@),
            ),
            final(state).config.same_settings(old(state).config),
            final(state).drive_status == old(state).drive_status,
            final(state).in_flight == old(state).in_flight,
            final(state).restore == old(state).restore,
    {
        let connected = state.drive_connected(self.drive_id.as_str());
        let interrupted = !connected;
        let status = if interrupted {
            RunStatus::Failed
        } else if self.degraded.is_some() {
            RunStatus::Partial
        } else {
            RunStatus::Success
        };
        let message = if interrupted {
            String::from_str("Interrupted (drive disconnected)")
        } else {
            match self.degraded {
                None => String::from_str("Backup completed"),
                Some(Degradation::QuickVerify) => String::from_str(
                    "Backup completed, but verification failed",
                ),
                Some(Degradation::DeepVerify) => String::from_str(
                    "Backup completed, but deep verification failed",
                ),
                Some(Degradation::Retention) => String::from_str(
                    "Backup completed, but retention failed",
                ),
            }
        };
        let repository_id = match find_drive_index(&state.config.trusted_drives, self.drive_id.as_str()) {
            Some(i) => clone_opt(&state.config.trusted_drives[i].repository_id),
            None => None,
        };
        let result = RunResult {
            status,
            phase: RunPhase::Completed,
            started_epoch: self.started_epoch,
            finished_epoch: Some(now),
            message,
            interrupted,
            snapshot_id: clone_opt(&self.summary.snapshot_id),
            repository_id,
            data_added: self.summary.data_added,
            files_processed: self.summary.files_processed,
        };
        state.last_run = Some(result.clone());
        state.config.record_last_seen(self.drive_id.as_str(), now);
        if connected {
            state.config.update_last_backup(
                self.drive_id.as_str(),
                now,
                clone_opt(&self.summary.snapshot_id),
            );
        }
        proof {
            lemma_updates_keep_ids(
                old(state).config.trusted_drives@,
                self.drive_id@,
                now,
                self.summary.snapshot_id,
                connected,
            );
        }
        self.stage = RunStage::Done;
        RunAction::Finished(Ok(result))
    }

    /// Enters `stage` after a finished step, publishing its phase and asking for it.
    fn enter(&mut self, state: &mut AgentRuntimeState, stage: RunStage, now: u64) -> (r: RunAction)
        requires
            old(state).wf(),
            stage == RunStage::VerifyingQuick || stage == RunStage::VerifyingDeep || stage
                == RunStage::Pruning || stage == RunStage::Done,
        ensures
            final(state).wf(),
            final(self).stage == stage,
            final(self).same_run(*old(self)),
            final(self).summary == old(self).summary,
            final(self).degraded == old(self).degraded,
            final(self).asks(r),
            stage == RunStage::VerifyingQuick ==> published(*old(state), *final(state), RunPhase::VerifyingQuick, "Quick verification"@, old(self).started_epoch, old(self).summary.snapshot_id),
            stage == RunStage::VerifyingDeep ==> published(*old(state), *final(state), RunPhase::VerifyingDeep, "Deep verification"@, old(self).started_epoch, old(self).summary.snapshot_id),
            stage == RunStage::Pruning ==> published(*old(state), *final(state), RunPhase::Pruning, "Applying retention"@, old(self).started_epoch, old(self).summary.snapshot_id),
            stage == RunStage::Done ==> {
                &&& r matches RunAction::Finished(Ok(res)) && run_completed(
                    res,
                    *final(self),
                    old(state).is_connected_drive(old(self).drive_id@),
                    now,
                    recorded_repo_id(old(state).config, old(self).drive_id@),
                ) && final(state).last_run == Some(res)
                &&& final(state).config.trusted_drives@ == bookkept(
                old(state).config.trusted_drives@,
                old(self).drive_id@,
                now,
                old(self).summary.snapshot_id,
                old(state).is_connected_drive(old(self).drive_id@),
            )
                &&& final(state).config.same_settings(old(state).config)
                &&& final(state).drive_status == old(state).drive_status
                &&& final(state).in_flight == old(state).in_flight
                &&& final(state).restore == old(state).restore
            },
    {
        let snap = clone_opt(&self.summary.snapshot_id);
        match stage {
            RunStage::VerifyingQuick => {
                state.set_phase(RunPhase::VerifyingQuick, "Quick verification", self.started_epoch, snap);
                self.stage = stage;
                RunAction::VerifyQuick(copy_str(self.repo_path.as_str()))
            },
            RunStage::VerifyingDeep => {
                state.set_phase(RunPhase::VerifyingDeep, "Deep verification", self.started_epoch, snap);
                self.stage = stage;
                RunAction::VerifyDeep(copy_str(self.repo_path.as_str()))
            },
            RunStage::Pruning => {
                state.set_phase(RunPhase::Pruning, "Applying retention", self.started_epoch, snap);
                self.stage = stage;
                RunAction::Prune {
                    repo_path: copy_str(self.repo_path.as_str()),
                    args: self.retention.to_forget_args(),
                }
            },
            _ => self.complete(state, now),
        }
    }

    /// The stage after a finished step at `from`.
    fn next_after(&self, from: RunStage) -> (r: RunStage)
        ensures
            r == self.stage_after(from, self.degraded),
    {
        let prune = self.retention.enabled && self.degraded.is_none();
        match from {
            RunStage::BackingUp => if self.quick_verify {
                RunStage::VerifyingQuick
            } else if self.deep_verify {
                RunStage::VerifyingDeep
            } else if prune {
                RunStage::Pruning
            } else {
                RunStage::Done
            },
            RunStage::VerifyingQuick => if self.deep_verify {
                RunStage::VerifyingDeep
            } else if prune {
                RunStage::Pruning
            } else {
                RunStage::Done
            },
            RunStage::VerifyingDeep => if prune {
                RunStage::Pruning
            } else {
                RunStage::Done
            },
            _ => RunStage::Done,
        }
    }

    /// Starts the backup itself, unless the sources rule it out.
    fn begin_backup(&mut self, state: &mut AgentRuntimeState, now: u64) -> (r: RunAction)
        ensures
            final(self).same_run(*old(self)),
            final(self).summary == old(self).summary,
            final(self).degraded == old(self).degraded,
            final(self).asks(r),
            match sources_error(old(self).sources) {
                Some(e) => {
                    &&& final(self).stage == RunStage::Done
                    &&& r matches RunAction::Finished(Err(x)) && x == e
                    &&& final(state).last_run matches Some(lr) && run_failed(
                        lr,
                        old(self).started_epoch,
                        now,
                        e == AgentError::Interrupted || !old(state).is_connected_drive(old(self).drive_id@),
                    )
                    &&& only_last_run_changed(*old(state), *final(state))
                },
                None => final(self).stage == RunStage::BackingUp && *final(state) == *old(state),
            },
    {
        let err = match &self.sources {
            None => Some(AgentError::Config),
            Some(v) => if v.len() == 0 {
                Some(AgentError::NoSources)
            } else {
                None
            },
        };
        match err {
            Some(e) => self.fail(state, e, now),
            None => {
                let sources = match &self.sources {
                    Some(v) => copy_strings(v),
                    None => Vec::new(),
                };
                self.stage = RunStage::BackingUp;
                RunAction::Backup { repo_path: copy_str(self.repo_path.as_str()), sources }
            },
        }
    }

    /// Takes what happened to the last action, at time `now`, and says what to do next.
    pub fn step(&mut self, state: &mut AgentRuntimeState, ev: RunEvent, now: u64) -> (r: RunAction)
        requires
            old(state).wf(),
            old(self).stage != RunStage::Done,
        ensures
            final(state).wf(),
            final(self).same_run(*old(self)),
            final(self).stage == old(self).stage_next(ev),
            final(self).degraded == old(self).degraded_after(ev),
            final(self).summary == match ev {
                RunEvent::BackupCompleted(s) => if old(self).stage == RunStage::BackingUp {
                    s
                } else {
                    old(self).summary
                },
                _ => old(self).summary,
            },
            final(self).asks(r),
            match old(self).fatal(ev) {
                Some(e) => {
                    &&& r matches RunAction::Finished(Err(x)) && x == e
                    &&& final(state).last_run matches Some(lr) && run_failed(
                        lr,
                        old(self).started_epoch,
                        now,
                        e == AgentError::Interrupted || !old(state).is_connected_drive(old(self).drive_id@),
                    )
                    &&& only_last_run_changed(*old(state), *final(state))
                },
                None => match final(self).stage {
                    RunStage::RecordingRepository => {
                        &&& ev matches RunEvent::RepositoryInitialized(id) && r matches RunAction::RecordRepositoryId(x)
                            && x@ == id@ && repo_id_recorded(
                            old(state).config.trusted_drives@,
                            final(state).config.trusted_drives@,
                            old(self).drive_id@,
                            id@,
                        )
                        &&& final(state).config.same_settings(old(state).config)
                        &&& final(state).drive_status == old(state).drive_status
                        &&& final(state).in_flight == old(state).in_flight
                        &&& final(state).restore == old(state).restore
                        &&& final(state).last_run == old(state).last_run
                    },
                    RunStage::VerifyingQuick => published(*old(state), *final(state), RunPhase::VerifyingQuick, "Quick verification"@, old(self).started_epoch, final(self).summary.snapshot_id),
                    RunStage::VerifyingDeep => published(*old(state), *final(state), RunPhase::VerifyingDeep, "Deep verification"@, old(self).started_epoch, final(self).summary.snapshot_id),
                    RunStage::Pruning => published(*old(state), *final(state), RunPhase::Pruning, "Applying retention"@, old(self).started_epoch, final(self).summary.snapshot_id),
                    RunStage::Done => {
                        &&& r matches RunAction::Finished(Ok(res)) && run_completed(
                            res,
                            *final(self),
                            old(state).is_connected_drive(old(self).drive_id@),
                            now,
                            recorded_repo_id(old(state).config, old(self).drive_id@),
                        ) && final(state).last_run == Some(res)
                        &&& final(state).config.trusted_drives@ == bookkept(
                old(state).config.trusted_drives@,
                old(self).drive_id@,
                now,
                final(self).summary.snapshot_id,
                old(state).is_connected_drive(old(self).drive_id@),
            )
                        &&& final(state).config.same_settings(old(state).config)
                        &&& final(state).drive_status == old(state).drive_status
                        &&& final(state).in_flight == old(state).in_flight
                        &&& final(state).restore == old(state).restore
                    },
                    _ => *final(state) == *old(state),
                },
            },
    {
        match self.stage {
            RunStage::CheckingRepository => match ev {
                RunEvent::RepositoryChecked(exists) => {
                    if exists {
                        self.begin_backup(state, now)
                    } else {
                        self.stage = RunStage::InitializingRepository;
                        RunAction::InitRepository(copy_str(self.repo_path.as_str()))
                    }
                },
                RunEvent::StepFailed(e) => self.fail(state, e, now),
                _ => self.fail(state, AgentError::Engine, now),
            },
            RunStage::InitializingRepository => match ev {
                RunEvent::RepositoryInitialized(id) => {
                    state.config.set_repository_id(self.drive_id.as_str(), id.as_str());
                    proof {
                        lemma_repo_id_keeps_ids(old(state).config.trusted_drives@, state.config.trusted_drives@, self.drive_id@, id@);
                    }
                    self.stage = RunStage::RecordingRepository;
                    RunAction::RecordRepositoryId(id)
                },
                RunEvent::StepFailed(e) => self.fail(state, e, now),
                _ => self.fail(state, AgentError::Engine, now),
            },
            RunStage::RecordingRepository => match ev {
                RunEvent::RepositoryRecorded => self.begin_backup(state, now),
                RunEvent::StepFailed(e) => self.fail(state, e, now),
                _ => self.fail(state, AgentError::Engine, now),
            },
            RunStage::BackingUp => match ev {
                RunEvent::BackupCompleted(s) => {
                    self.summary = s;
                    let next = self.next_after(RunStage::BackingUp);
                    self.enter(state, next, now)
                },
                RunEvent::StepFailed(e) => self.fail(state, e, now),
                _ => self.fail(state, AgentError::Engine, now),
            },
            _ => {
                let failed = match ev {
                    RunEvent::StepSucceeded => false,
                    RunEvent::StepFailed(_) => true,
                    _ => {
                        return self.fail(state, AgentError::Engine, now);
                    },
                };
                let from = self.stage;
                if failed {
                    self.degraded = match from {
                        RunStage::VerifyingQuick => Some(Degradation::QuickVerify),
                        RunStage::VerifyingDeep => Some(Degradation::DeepVerify),
                        _ => Some(Degradation::Retention),
                    };
                }
                let next = self.next_after(from);
                self.enter(state, next, now)
            },
        }
    }
}

/// A fresh copy of each string.
fn copy_strings(v: &Vec<String>) -> (r: Vec<String>)
    ensures
        views(r@) == views(v@),
{
    let mut r: Vec<String> = Vec::new();
    let mut i: usize = 0;
    while i < v.len()
        invariant
            i <= v.len(),
            views(r@) == views(v@.take(i as int)),
        decreases v.len() - i,
    {
        let ghost before = views(r@);
        r.push(copy_str(v[i].as_str()));
        assert(views(r@) =~= before.push(v@[i as int]@));
        assert(views(v@.take(i as int + 1)) =~= views(v@.take(i as int)).push(v@[i as int]@));
        i += 1;
    }
    assert(v@.take(v.len() as int) =~= v@);
    r
}

proof fn lemma_repo_id_keeps_ids(
    ds: Seq<TrustedDrive>,
    t: Seq<TrustedDrive>,
    id: Seq<char>,
    repo_id: Seq<char>,
)
    requires
        crate::config::unique_ids(ds),
        repo_id_recorded(ds, t, id, repo_id),
    ensures
        crate::config::unique_ids(t),
{
    assert forall|i: int, j: int|
        0 <= i < t.len() && 0 <= j < t.len() && i != j implies (#[trigger] t[i]).drive_id@ != (
        #[trigger] t[j]).drive_id@ by {
        assert(t[i].drive_id == ds[i].drive_id);
        assert(t[j].drive_id == ds[j].drive_id);
    }
}

proof fn lemma_updates_keep_ids(
    ds: Seq<TrustedDrive>,
    id: Seq<char>,
    now: u64,
    snapshot_id: Option<String>,
    succeeded: bool,
)
    requires
        crate::config::unique_ids(ds),
    ensures
        crate::config::unique_ids(bookkept(ds, id, now, snapshot_id, succeeded)),
{
    let a = seen_at(ds, id, now);
    let b = bookkept(ds, id, now, snapshot_id, succeeded);
    assert forall|i: int, j: int|
        0 <= i < b.len() && 0 <= j < b.len() && i != j implies (#[trigger] b[i]).drive_id@ != (
        #[trigger] b[j]).drive_id@ by {
        assert(a[i].drive_id == ds[i].drive_id);
        assert(a[j].drive_id == ds[j].drive_id);
        assert(b[i].drive_id == a[i].drive_id);
        assert(b[j].drive_id == a[j].drive_id);
    }
}

} // verus!
