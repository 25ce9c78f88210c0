use aegis_agent::config::{AgentConfig, TrustedDrive};
use aegis_agent::drive::DriveMarker;
use aegis_agent::errors::AgentError;
use aegis_agent::state::{AgentRuntimeState, BackupProgress, RunPhase, RunStatus};
use aegis_agent::usb::DriveArrival;
use tokio_util::sync::CancellationToken;

fn trusted(id: &str, label: &str) -> TrustedDrive {
    TrustedDrive {
        drive_id: id.to_string(),
        label: Some(label.to_string()),
        repository_path: ".aegis/repo".to_string(),
        repository_id: None,
        last_seen_epoch: None,
        last_backup_epoch: None,
        last_backup_snapshot_id: None,
        backup_sources: None,
    }
}

fn state_with(ids: &[&str]) -> AgentRuntimeState {
    let mut config = AgentConfig::default();
    for id in ids {
        config.trust_drive(trusted(id, &format!("label-{}", id)));
    }
    AgentRuntimeState::new(config)
}

fn marker(id: &str) -> DriveMarker {
    DriveMarker {
        drive_id: id.to_string(),
        created_epoch: 1,
        label: Some("USB".to_string()),
        repository_id: None,
    }
}

#[test]
fn second_backup_of_same_drive_conflicts_without_new_handle() {
    let mut s = state_with(&["d1", "d2"]);
    assert!(s.try_begin_backup("d1", CancellationToken::new()).is_ok());
    assert_eq!(
        s.try_begin_backup("d1", CancellationToken::new()),
        Err(AgentError::Conflict)
    );
    assert_eq!(s.in_flight.len(), 1);
    assert!(s.try_begin_backup("d2", CancellationToken::new()).is_ok());
    assert_eq!(s.in_flight.len(), 2);
    assert!(s.is_backup_running("d1"));
}

#[test]
fn finishing_a_backup_drops_handle_and_progress() {
    let mut s = state_with(&["d1"]);
    s.try_begin_backup("d1", CancellationToken::new()).unwrap();
    s.set_phase(RunPhase::BackingUp, "Starting backup", 10, None);
    s.record_progress(
        "d1",
        BackupProgress {
            percent_done_ppm: 500_000,
            message: "Backing up: 50% (1 / 2 files)".to_string(),
            files_done: 1,
            total_files: 2,
            bytes_done: 5,
            total_bytes: 10,
        },
    );
    assert_eq!(s.in_flight[0].progress.as_ref().unwrap().files_done, 1);
    assert_eq!(s.last_run.as_ref().unwrap().message, "Backing up: 50% (1 / 2 files)");
    assert!(s.finish_backup("d1").is_some());
    assert!(s.in_flight.is_empty());
    assert!(s.finish_backup("d1").is_none());
}

#[test]
fn disconnect_during_backup_fails_run_as_interrupted() {
    let mut s = state_with(&["d1"]);
    let token = CancellationToken::new();
    let watcher = token.clone();
    s.handle_added("/dev/sdb1", Some("/media/usb".to_string()), Some(marker("d1")));
    s.try_begin_backup("d1", token).unwrap();
    assert!(s.handle_removed_at("/dev/sdb1", None, 42));
    let run = s.last_run.as_ref().unwrap();
    assert_eq!(run.status, RunStatus::Failed);
    assert!(run.interrupted);
    assert_eq!(run.message, "Interrupted (drive disconnected)");
    assert_eq!(run.finished_epoch, Some(42));
    assert!(s.in_flight.is_empty());
    assert!(watcher.is_cancelled());
    assert!(!s.drive_status.connected);
    assert!(s.drive_status.drive_id.is_none());
}

#[test]
fn removal_of_another_device_is_ignored() {
    let mut s = state_with(&["d1"]);
    s.handle_added("/dev/sdb1", Some("/media/usb".to_string()), Some(marker("d1")));
    assert!(!s.handle_removed_at("/dev/sdc1", Some("/dev/sdb1".to_string()), 1));
    assert!(s.drive_status.connected);
}

#[test]
fn disconnect_cancels_restore_of_that_drive() {
    let mut s = state_with(&["d1"]);
    let token = CancellationToken::new();
    let watcher = token.clone();
    s.handle_added("/dev/sdb1", Some("/media/usb".to_string()), Some(marker("d1")));
    s.begin_restore("d1", token).unwrap();
    assert_eq!(s.begin_restore("d1", CancellationToken::new()), Err(AgentError::Conflict));
    s.handle_removed("/dev/sdb1", Some("/dev/sdb1".to_string()));
    assert!(s.restore.is_none());
    assert!(watcher.is_cancelled());
    assert!(s.last_run.is_none());
}

#[test]
fn hotplug_add_outcomes() {
    let mut s = state_with(&["d1"]);
    assert_eq!(s.handle_added("/dev/sdb", None, None), DriveArrival::Unmounted);
    assert!(s.drive_status.connected && s.drive_status.mount_path.is_none());
    assert!(s.drive_status.label.is_none());
    assert_eq!(
        s.handle_added("/dev/sdb1", Some("/m".to_string()), None),
        DriveArrival::Unknown
    );
    assert!(!s.drive_status.trusted);
    assert_eq!(
        s.handle_added("/dev/sdb1", Some("/m".to_string()), Some(marker("zz"))),
        DriveArrival::Untrusted
    );
    assert_eq!(s.drive_status.drive_id.as_deref(), Some("zz"));
    assert_eq!(
        s.handle_added("/dev/sdb1", Some("/m".to_string()), Some(marker("d1"))),
        DriveArrival::Trusted
    );
    assert!(s.drive_status.trusted);
    assert!(s.config.trusted_drives[0].last_seen_epoch.is_some());
}

#[test]
fn auto_backup_rule() {
    let mut s = state_with(&["d1"]);
    assert!(s.auto_backup_wanted("d1"));
    s.try_begin_backup("d1", CancellationToken::new()).unwrap();
    assert!(!s.auto_backup_wanted("d1"));
    let mut p = state_with(&["d1"]);
    p.config.paranoid_mode = true;
    assert!(!p.auto_backup_wanted("d1"));
    let mut q = state_with(&["d1"]);
    q.config.auto_backup_on_insert = false;
    assert!(!q.auto_backup_wanted("d1"));
}
