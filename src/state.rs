//! The shared runtime state: live drive status, the last run, and the
//! bookkeeping of in-flight backups and restores with their cancellation handles.
use vstd::prelude::*;
use crate::config::{clone_opt, AgentConfig};
use crate::errors::AgentError;
use crate::text::{copy_str, str_eq};
use tokio_util::sync::CancellationToken;

verus! {

#[verifier::external_type_specification]
#[verifier::external_body]
pub struct ExCancellationToken(CancellationToken);

/// Relies on `CancellationToken::cancel`: raises the signal; tasks waiting on it wake up.
pub assume_specification[ CancellationToken::cancel ](t: &CancellationToken);

#[derive(Debug, Clone, Copy, PartialEq, Eq, Structural)]
pub enum RunStatus {
    Success,
    Partial,
    Failed,
}

#[derive(Debug, Clone, Copy, PartialEq, Eq, Structural)]
pub enum RunPhase {
    Idle,
    WaitingForDrive,
    BackingUp,
    VerifyingQuick,
    VerifyingDeep,
    Pruning,
    Completed,
}

/// Live progress of a running backup.
pub struct BackupProgress {
    /// Fraction complete, in millionths.
    pub percent_done_ppm: u32,
    pub message: String,
    pub files_done: u64,
    pub total_files: u64,
    pub bytes_done: u64,
    pub total_bytes: u64,
}

pub struct RunResult {
    pub status: RunStatus,
    pub phase: RunPhase,
    pub started_epoch: u64,
    pub finished_epoch: Option<u64>,
    pub message: String,
    pub interrupted: bool,
    pub snapshot_id: Option<String>,
    pub repository_id: Option<String>,
    pub data_added: Option<u64>,
    pub files_processed: Option<u64>,
}

impl Clone for RunResult {
    fn clone(&self) -> (r: Self)
        ensures
            r == *self,
    {
        RunResult {
            status: self.status,
            phase: self.phase,
            started_epoch: self.started_epoch,
            finished_epoch: self.finished_epoch,
            message: self.message.clone(),
            interrupted: self.interrupted,
            snapshot_id: clone_opt(&self.snapshot_id),
            repository_id: clone_opt(&self.repository_id),
            data_added: self.data_added,
            files_processed: self.files_processed,
        }
    }
}

pub struct DriveStatus {
    pub connected: bool,
    pub trusted: bool,
    pub drive_id: Option<String>,
    pub label: Option<String>,
    pub mount_path: Option<String>,
    pub devnode: Option<String>,
}

impl DriveStatus {
    pub open spec fn is_cleared(self) -> bool {
        &&& !self.connected
        &&& !self.trusted
        &&& self.drive_id is None
        &&& self.label is None
        &&& self.mount_path is None
        &&& self.devnode is None
    }

    /// No drive connected.
    pub fn disconnected() -> (r: DriveStatus)
        ensures
            r.is_cleared(),
    {
        DriveStatus {
            connected: false,
            trusted: false,
            drive_id: None,
            label: None,
            mount_path: None,
            devnode: None,
        }
    }
}

/// A backup in flight for one drive: its cancellation handle and latest progress.
pub struct InFlightBackup {
    pub drive_id: String,
    pub cancel: CancellationToken,
    pub progress: Option<BackupProgress>,
}

/// The restore in flight, if any.
pub struct InFlightRestore {
    pub drive_id: String,
    pub cancel: CancellationToken,
}

/// `i` is the position of the in-flight backup of `id`.
pub open spec fn is_flight_of(fs: Seq<InFlightBackup>, id: Seq<char>, i: int) -> bool {
    0 <= i < fs.len() && fs[i].drive_id@ == id
}

pub open spec fn in_flight_for(fs: Seq<InFlightBackup>, id: Seq<char>) -> bool {
    exists|i: int| is_flight_of(fs, id, i)
}

/// At most one in-flight backup per drive identity.
pub open spec fn flights_unique(fs: Seq<InFlightBackup>) -> bool {
    forall|i: int, j: int|
        0 <= i < fs.len() && 0 <= j < fs.len() && i != j ==> (#[trigger] fs[i]).drive_id@ != (
        #[trigger] fs[j]).drive_id@
}

/// The in-flight list without any backup of `id`.
pub open spec fn without_flight(fs: Seq<InFlightBackup>, id: Seq<char>) -> Seq<InFlightBackup> {
    fs.filter(|f: InFlightBackup| f.drive_id@ != id)
}

/// `o` holds a string whose characters are `v`.
pub open spec fn opt_is(o: Option<String>, v: Seq<char>) -> bool {
    match o {
        Some(s) => s@ == v,
        None => false,
    }
}

/// The same backup, with possibly other progress.
pub open spec fn same_flight(a: InFlightBackup, b: InFlightBackup) -> bool {
    a.drive_id == b.drive_id && a.cancel == b.cancel
}

pub open spec fn run_in_progress(
    phase: RunPhase,
    message: Seq<char>,
    started_epoch: u64,
    snapshot_id: Option<String>,
    r: RunResult,
) -> bool {
    &&& r.status == RunStatus::Partial
    &&& r.phase == phase
    &&& r.started_epoch == started_epoch
    &&& r.finished_epoch is None
    &&& r.message@ == message
    &&& !r.interrupted
    &&& r.snapshot_id == snapshot_id
    &&& r.repository_id is None
    &&& r.data_added is None
    &&& r.files_processed is None
}

/// A finished run that failed; `interrupted` when its drive went away.
pub open spec fn run_failed(r: RunResult, started: u64, now: u64, interrupted: bool) -> bool {
    &&& r.status == RunStatus::Failed
    &&& r.phase == RunPhase::Completed
    &&& r.started_epoch == started
    &&& r.finished_epoch == Some(now)
    &&& r.interrupted == interrupted
    &&& r.message@ == if interrupted {
        "Interrupted (drive disconnected)"@
    } else {
        "Backup failed"@
    }
    &&& r.snapshot_id is None
    &&& r.repository_id is None
    &&& r.data_added is None
    &&& r.files_processed is None
}

/// The result recorded for a run that failed.
pub fn failed_run(started: u64, now: u64, interrupted: bool) -> (r: RunResult)
    ensures
        run_failed(r, started, now, interrupted),
{
    let message = if interrupted {
        String::from_str("Interrupted (drive disconnected)")
    } else {
        String::from_str("Backup failed")
    };
    RunResult {
        status: RunStatus::Failed,
        phase: RunPhase::Completed,
        started_epoch: started,
        finished_epoch: Some(now),
        message,
        interrupted,
        snapshot_id: None,
        repository_id: None,
        data_added: None,
        files_processed: None,
    }
}

pub struct AgentRuntimeState {
    pub config: AgentConfig,
    pub drive_status: DriveStatus,
    pub last_run: Option<RunResult>,
    /// Backups in progress, one per drive at most.
    pub in_flight: Vec<InFlightBackup>,
    /// The restore in progress, one system-wide at most.
    pub restore: Option<InFlightRestore>,
}

impl AgentRuntimeState {
    pub open spec fn wf(self) -> bool {
        &&& self.config.wf()
        &&& flights_unique(self.in_flight@)
    }

    /// The connected drive is `id`.
    pub open spec fn is_connected_drive(self, id: Seq<char>) -> bool {
        self.drive_status.connected && opt_is(self.drive_status.drive_id, id)
    }

    pub open spec fn is_running(self, id: Seq<char>) -> bool {
        in_flight_for(self.in_flight@, id)
    }

    pub fn new(config: AgentConfig) -> (r: Self)
        requires
            config.wf(),
        ensures
            r.wf(),
            r.config == config,
            r.drive_status.is_cleared(),
            r.last_run is None,
            r.in_flight@.len() == 0,
            r.restore is None,
    {
        AgentRuntimeState {
            config,
            drive_status: DriveStatus::disconnected(),
            last_run: None,
            in_flight: Vec::new(),
            restore: None,
        }
    }

    /// Position of the in-flight backup of `drive_id`.
    pub fn flight_index(&self, drive_id: &str) -> (r: Option<usize>)
        ensures
            match r {
                Some(i) => is_flight_of(self.in_flight@, drive_id@, i as int),
                None => !self.is_running(drive_id@),
            },
    {
        let mut i: usize = 0;
        while i < self.in_flight.len()
            invariant
                i <= self.in_flight.len(),
                forall|j: int| 0 <= j < i ==> !is_flight_of(self.in_flight@, drive_id@, j),
            decreases self.in_flight.len() - i,
        {
            if str_eq(self.in_flight[i].drive_id.as_str(), drive_id) {
                return Some(i);
            }
            i += 1;
        }
        None
    }

    pub fn is_backup_running(&self, drive_id: &str) -> (r: bool)
        ensures
            r == self.is_running(drive_id@),
    {
        self.flight_index(drive_id).is_some()
    }

    /// Registers a backup of `drive_id` with its cancellation handle, unless one is
    /// already in flight for that drive.
    pub fn try_begin_backup(&mut self, drive_id: &str, cancel: CancellationToken) -> (r: Result<
        (),
        AgentError,
    >)
        requires
            old(self).wf(),
        ensures
            final(self).wf(),
            old(self).is_running(drive_id@) ==> r == Err::<(), AgentError>(AgentError::Conflict)
                && final(self).in_flight@ == old(self).in_flight@,
            !old(self).is_running(drive_id@) ==> r is Ok && final(self).in_flight@.len()
                == old(self).in_flight@.len() + 1 && final(self).in_flight@.drop_last()
                == old(self).in_flight@ && final(self).in_flight@.last().drive_id@ == drive_id@
                && final(self).in_flight@.last().cancel == cancel
                && final(self).in_flight@.last().progress is None,
            final(self).config == old(self).config,
            final(self).drive_status == old(self).drive_status,
            final(self).last_run == old(self).last_run,
            final(self).restore == old(self).restore,
    {
        if self.flight_index(drive_id).is_some() {
            return Err(AgentError::Conflict);
        }
        self.in_flight.push(InFlightBackup { drive_id: copy_str(drive_id), cancel, progress: None });
        proof {
            let fs = self.in_flight@;
            assert(fs.drop_last() =~= old(self).in_flight@);
            assert forall|i: int, j: int|
                0 <= i < fs.len() && 0 <= j < fs.len() && i != j implies (#[trigger] fs[i]).drive_id@
                != (#[trigger] fs[j]).drive_id@ by {
                if i == fs.len() - 1 {
                    assert(!is_flight_of(old(self).in_flight@, drive_id@, j));
                } else if j == fs.len() - 1 {
                    assert(!is_flight_of(old(self).in_flight@, drive_id@, i));
                }
            }
        }
        Ok(())
    }

    /// Drops the bookkeeping of the backup of `drive_id` (its handle and progress),
    /// whichever way it ended. Returns the handle that was held.
    pub fn finish_backup(&mut self, drive_id: &str) -> (r: Option<CancellationToken>)
        requires
            old(self).wf(),
        ensures
            final(self).wf(),
            final(self).in_flight@ == without_flight(old(self).in_flight@, drive_id@),
            !final(self).is_running(drive_id@),
            r is Some == old(self).is_running(drive_id@),
            final(self).config == old(self).config,
            final(self).drive_status == old(self).drive_status,
            final(self).last_run == old(self).last_run,
            final(self).restore == old(self).restore,
    {
        match self.flight_index(drive_id) {
            Some(i) => {
                let f = self.in_flight.remove(i);
                proof {
                    lemma_remove_unique_flight(old(self).in_flight@, drive_id@, i as int);
                }
                Some(f.cancel)
            },
            None => {
                proof {
                    lemma_without_absent(old(self).in_flight@, drive_id@);
                }
                None
            },
        }
    }

    /// Stores the latest progress of the backup of `drive_id` and shows its message
    /// in the current run; ignored when no backup of that drive is in flight.
    pub fn record_progress(&mut self, drive_id: &str, progress: BackupProgress)
        requires
            old(self).wf(),
        ensures
            final(self).wf(),
            final(self).config == old(self).config,
            final(self).drive_status == old(self).drive_status,
            final(self).restore == old(self).restore,
            final(self).in_flight@.len() == old(self).in_flight@.len(),
            forall|i: int|
                0 <= i < old(self).in_flight@.len() ==> same_flight(
                    #[trigger] final(self).in_flight@[i],
                    old(self).in_flight@[i],
                ),
            old(self).is_running(drive_id@) ==> {
                &&& exists|i: int|
                    #[trigger] is_flight_of(final(self).in_flight@, drive_id@, i)
                        && final(self).in_flight@[i].progress == Some(progress)
                &&& match old(self).last_run {
                    Some(lr) => final(self).last_run == Some(
                        RunResult { message: progress.message, ..lr },
                    ),
                    None => final(self).last_run is None,
                }
            },
            !old(self).is_running(drive_id@) ==> final(self).in_flight@ == old(self).in_flight@
                && final(self).last_run == old(self).last_run,
    {
        match self.flight_index(drive_id) {
            Some(i) => {
                let message = progress.message.clone();
                let mut f = self.in_flight.remove(i);
                f.progress = Some(progress);
                self.in_flight.insert(i, f);
                proof {
                    let fs = self.in_flight@;
                    let o = old(self).in_flight@;
                    assert(fs =~= o.update(i as int, fs[i as int]));
                    assert(is_flight_of(fs, drive_id@, i as int));
                    assert forall|a: int, b: int|
                        0 <= a < fs.len() && 0 <= b < fs.len() && a != b implies (
                        #[trigger] fs[a]).drive_id@ != (#[trigger] fs[b]).drive_id@ by {
                        assert(fs[a].drive_id == o[a].drive_id);
                        assert(fs[b].drive_id == o[b].drive_id);
                    }
                }
                match self.last_run.take() {
                    Some(mut lr) => {
                        lr.message = message;
                        self.last_run = Some(lr);
                    },
                    None => {},
                }
            },
            None => {},
        }
    }

    /// Claims the single restore slot for `drive_id`.
    pub fn begin_restore(&mut self, drive_id: &str, cancel: CancellationToken) -> (r: Result<
        (),
        AgentError,
    >)
        ensures
            old(self).restore is Some ==> r == Err::<(), AgentError>(AgentError::Conflict)
                && final(self).restore == old(self).restore,
            old(self).restore is None ==> r is Ok && final(self).restore is Some
                && final(self).restore->0.drive_id@ == drive_id@
                && final(self).restore->0.cancel == cancel,
            final(self).config == old(self).config,
            final(self).drive_status == old(self).drive_status,
            final(self).last_run == old(self).last_run,
            final(self).in_flight == old(self).in_flight,
    {
        if self.restore.is_some() {
            return Err(AgentError::Conflict);
        }
        self.restore = Some(InFlightRestore { drive_id: copy_str(drive_id), cancel });
        Ok(())
    }

    /// Releases the restore slot.
    pub fn end_restore(&mut self)
        ensures
            final(self).restore is None,
            final(self).config == old(self).config,
            final(self).drive_status == old(self).drive_status,
            final(self).last_run == old(self).last_run,
            final(self).in_flight == old(self).in_flight,
    {
        self.restore = None;
    }

    /// Publishes the current phase of a run in progress.
    pub fn set_phase(
        &mut self,
        phase: RunPhase,
        message: &str,
        started_epoch: u64,
        snapshot_id: Option<String>,
    )
        ensures
            final(self).last_run matches Some(r) && run_in_progress(
                phase,
                message@,
                started_epoch,
                snapshot_id,
                r,
            ),
            final(self).config == old(self).config,
            final(self).drive_status == old(self).drive_status,
            final(self).in_flight == old(self).in_flight,
            final(self).restore == old(self).restore,
    {
        self.last_run = Some(
            RunResult {
                status: RunStatus::Partial,
                phase,
                started_epoch,
                finished_epoch: None,
                message: copy_str(message),
                interrupted: false,
                snapshot_id,
                repository_id: None,
                data_added: None,
                files_processed: None,
            },
        );
    }

    /// Whether the connected drive is `drive_id`.
    pub fn drive_connected(&self, drive_id: &str) -> (r: bool)
        ensures
            r == self.is_connected_drive(drive_id@),
    {
        if !self.drive_status.connected {
            return false;
        }
        match &self.drive_status.drive_id {
            Some(d) => str_eq(d.as_str(), drive_id),
            None => false,
        }
    }
}

proof fn lemma_without_absent(fs: Seq<InFlightBackup>, id: Seq<char>)
    requires
        !in_flight_for(fs, id),
    ensures
        without_flight(fs, id) == fs,
    decreases fs.len(),
{
    reveal_with_fuel(Seq::filter, 1);
    if fs.len() > 0 {
        assert(!is_flight_of(fs, id, fs.len() - 1));
        assert forall|i: int| 0 <= i < fs.drop_last().len() implies !is_flight_of(fs.drop_last(), id, i) by {
            assert(!is_flight_of(fs, id, i));
        }
        lemma_without_absent(fs.drop_last(), id);
        assert(fs.drop_last().push(fs.last()) =~= fs);
    }
}

proof fn lemma_remove_unique_flight(fs: Seq<InFlightBackup>, id: Seq<char>, k: int)
    requires
        flights_unique(fs),
        is_flight_of(fs, id, k),
    ensures
        without_flight(fs, id) == fs.remove(k),
        flights_unique(fs.remove(k)),
        !in_flight_for(fs.remove(k), id),
{
    let r = fs.remove(k);
    assert forall|i: int| 0 <= i < r.len() implies !is_flight_of(r, id, i) by {
        let oi = if i < k { i } else { i + 1 };
        assert(r[i] == fs[oi]);
    }
    assert forall|a: int, b: int|
        0 <= a < r.len() && 0 <= b < r.len() && a != b implies (#[trigger] r[a]).drive_id@ != (
        #[trigger] r[b]).drive_id@ by {
        let oa = if a < k { a } else { a + 1 };
        let ob = if b < k { b } else { b + 1 };
        assert(r[a] == fs[oa]);
        assert(r[b] == fs[ob]);
    }
    lemma_filter_remove(fs, id, k);
}

proof fn lemma_filter_remove(fs: Seq<InFlightBackup>, id: Seq<char>, k: int)
    requires
        flights_unique(fs),
        is_flight_of(fs, id, k),
    ensures
        without_flight(fs, id) == fs.remove(k),
    decreases fs.len(),
{
    reveal_with_fuel(Seq::filter, 1);
    let p = fs.drop_last();
    assert(p.push(fs.last()) =~= fs);
    if k == fs.len() - 1 {
        assert forall|i: int| 0 <= i < p.len() implies !is_flight_of(p, id, i) by {
            assert(p[i] == fs[i]);
        }
        lemma_without_absent(p, id);
        assert(fs.remove(k) =~= p);
    } else {
        assert(p[k] == fs[k]);
        assert forall|a: int, b: int|
            0 <= a < p.len() && 0 <= b < p.len() && a != b implies (#[trigger] p[a]).drive_id@ != (
            #[trigger] p[b]).drive_id@ by {
            assert(p[a] == fs[a]);
            assert(p[b] == fs[b]);
        }
        lemma_filter_remove(p, id, k);
        assert(fs.last().drive_id@ != id);
        assert(fs.remove(k) =~= p.remove(k).push(fs.last()));
    }
}

/// Drive identities never share an in-flight backup: in a well-formed state there
/// is at most one cancellation handle per drive.
pub proof fn lemma_one_handle_per_drive(s: AgentRuntimeState, id: Seq<char>, i: int, j: int)
    requires
        s.wf(),
        is_flight_of(s.in_flight@, id, i),
        is_flight_of(s.in_flight@, id, j),
    ensures
        i == j,
{
}

} // verus!
