use aegis_agent::backup::{expand_sources_in, run_label, BackupRun, RunAction, RunEvent, RunStage};
use aegis_agent::config::{AgentConfig, BackupSource, TrustedDrive};
use aegis_agent::drive::DriveMarker;
use aegis_agent::errors::AgentError;
use aegis_agent::restic::BackupSummary;
use aegis_agent::state::{AgentRuntimeState, RunPhase, RunStatus};

fn state(repository_id: Option<&str>) -> AgentRuntimeState {
    let mut config = AgentConfig::default();
    config.trust_drive(TrustedDrive {
        drive_id: "d1".to_string(),
        label: Some("Office".to_string()),
        repository_path: ".aegis/repo".to_string(),
        repository_id: repository_id.map(|r| r.to_string()),
        last_seen_epoch: None,
        last_backup_epoch: None,
        last_backup_snapshot_id: None,
        backup_sources: None,
    });
    let mut s = AgentRuntimeState::new(config);
    s.handle_added(
        "/dev/sdb1",
        Some("/media/usb".to_string()),
        Some(DriveMarker {
            drive_id: "d1".to_string(),
            created_epoch: 1,
            label: Some("Office".to_string()),
            repository_id: None,
        }),
    );
    s
}

fn summary() -> BackupSummary {
    BackupSummary {
        snapshot_id: Some("snap-1".to_string()),
        data_added: Some(1024),
        files_processed: Some(42),
    }
}

fn sources() -> Option<Vec<String>> {
    Some(vec!["/home/u/Documents".to_string()])
}

#[test]
fn missing_repository_is_initialized_and_its_id_recorded() {
    let mut s = state(None);
    let (mut run, a) = BackupRun::start(&mut s, "d1", "/media/usb", sources(), 100);
    match a {
        RunAction::CheckRepository(p) => assert_eq!(p, "/media/usb/.aegis/repo"),
        _ => panic!("expected a repository check"),
    }
    let a = run.step(&mut s, RunEvent::RepositoryChecked(false), 101);
    assert!(matches!(a, RunAction::InitRepository(ref p) if p == "/media/usb/.aegis/repo"));
    let a = run.step(&mut s, RunEvent::RepositoryInitialized("repo-abc".to_string()), 102);
    assert!(matches!(a, RunAction::RecordRepositoryId(ref id) if id == "repo-abc"));
    assert_eq!(s.config.trusted_drives[0].repository_id.as_deref(), Some("repo-abc"));
    let on_medium = DriveMarker {
        drive_id: "d1".to_string(),
        created_epoch: 1,
        label: None,
        repository_id: None,
    }
    .with_repository_id("repo-abc");
    assert_eq!(on_medium.repository_id.as_deref(), Some("repo-abc"));
    let a = run.step(&mut s, RunEvent::RepositoryRecorded, 103);
    assert!(matches!(a, RunAction::Backup { ref sources, .. } if sources.len() == 1));
}

#[test]
fn quick_verification_failure_makes_run_partial() {
    let mut s = state(Some("repo-1"));
    let (mut run, _) = BackupRun::start(&mut s, "d1", "/media/usb", sources(), 100);
    run.step(&mut s, RunEvent::RepositoryChecked(true), 101);
    let a = run.step(&mut s, RunEvent::BackupCompleted(summary()), 102);
    assert!(matches!(a, RunAction::VerifyQuick(_)));
    assert!(matches!(s.last_run.as_ref().unwrap().phase, RunPhase::VerifyingQuick));
    let a = run.step(&mut s, RunEvent::StepFailed(AgentError::Engine), 103);
    match a {
        RunAction::Finished(Ok(r)) => {
            assert_eq!(r.status, RunStatus::Partial);
            assert_eq!(r.message, "Backup completed, but verification failed");
            assert!(!r.interrupted);
            assert_eq!(r.snapshot_id.as_deref(), Some("snap-1"));
            assert_eq!(r.repository_id.as_deref(), Some("repo-1"));
            assert_eq!(r.files_processed, Some(42));
        }
        _ => panic!("expected a finished run"),
    }
    assert_eq!(s.last_run.as_ref().unwrap().status, RunStatus::Partial);
    assert_eq!(s.config.trusted_drives[0].last_backup_epoch, Some(103));
}

#[test]
fn full_pipeline_succeeds_and_prunes() {
    let mut s = state(Some("repo-1"));
    s.config.deep_verify = true;
    s.config.retention.enabled = true;
    s.config.retention.keep_last = 7;
    let (mut run, _) = BackupRun::start(&mut s, "d1", "/media/usb", sources(), 100);
    run.step(&mut s, RunEvent::RepositoryChecked(true), 101);
    run.step(&mut s, RunEvent::BackupCompleted(summary()), 102);
    let a = run.step(&mut s, RunEvent::StepSucceeded, 103);
    assert!(matches!(a, RunAction::VerifyDeep(_)));
    let a = run.step(&mut s, RunEvent::StepSucceeded, 104);
    match a {
        RunAction::Prune { args, .. } => assert_eq!(args, vec!["--keep-last", "7"]),
        _ => panic!("expected pruning"),
    }
    let a = run.step(&mut s, RunEvent::StepSucceeded, 105);
    match a {
        RunAction::Finished(Ok(r)) => {
            assert_eq!(r.status, RunStatus::Success);
            assert_eq!(r.message, "Backup completed");
        }
        _ => panic!("expected success"),
    }
    assert_eq!(run.stage, RunStage::Done);
}

#[test]
fn degraded_run_skips_pruning() {
    let mut s = state(Some("repo-1"));
    s.config.retention.enabled = true;
    let (mut run, _) = BackupRun::start(&mut s, "d1", "/media/usb", sources(), 100);
    run.step(&mut s, RunEvent::RepositoryChecked(true), 101);
    run.step(&mut s, RunEvent::BackupCompleted(summary()), 102);
    let a = run.step(&mut s, RunEvent::StepFailed(AgentError::Engine), 103);
    assert!(matches!(a, RunAction::Finished(Ok(ref r)) if r.status == RunStatus::Partial));
}

#[test]
fn drive_gone_at_the_end_fails_the_run() {
    let mut s = state(Some("repo-1"));
    s.config.quick_verify = false;
    let (mut run, _) = BackupRun::start(&mut s, "d1", "/media/usb", sources(), 100);
    run.step(&mut s, RunEvent::RepositoryChecked(true), 101);
    s.drive_status.connected = false;
    let a = run.step(&mut s, RunEvent::BackupCompleted(summary()), 102);
    match a {
        RunAction::Finished(Ok(r)) => {
            assert_eq!(r.status, RunStatus::Failed);
            assert!(r.interrupted);
            assert_eq!(r.message, "Interrupted (drive disconnected)");
        }
        _ => panic!("expected an interrupted run"),
    }
    assert_eq!(s.config.trusted_drives[0].last_backup_epoch, None);
    assert_eq!(s.config.trusted_drives[0].last_backup_snapshot_id, None);
    assert_eq!(s.config.trusted_drives[0].last_seen_epoch, Some(102));
}

#[test]
fn cancelled_backup_is_interrupted() {
    let mut s = state(Some("repo-1"));
    let (mut run, _) = BackupRun::start(&mut s, "d1", "/media/usb", sources(), 100);
    run.step(&mut s, RunEvent::RepositoryChecked(true), 101);
    let a = run.step(&mut s, RunEvent::StepFailed(AgentError::Interrupted), 102);
    assert!(matches!(a, RunAction::Finished(Err(AgentError::Interrupted))));
    let r = s.last_run.as_ref().unwrap();
    assert_eq!(r.status, RunStatus::Failed);
    assert!(r.interrupted);
}

#[test]
fn engine_failure_before_backup_fails_the_run() {
    let mut s = state(Some("repo-1"));
    let (mut run, _) = BackupRun::start(&mut s, "d1", "/media/usb", sources(), 100);
    let a = run.step(&mut s, RunEvent::StepFailed(AgentError::Engine), 101);
    assert!(matches!(a, RunAction::Finished(Err(AgentError::Engine))));
    let r = s.last_run.as_ref().unwrap();
    assert_eq!(r.message, "Backup failed");
    assert!(!r.interrupted);
}

#[test]
fn no_sources_fails_the_run() {
    let mut s = state(Some("repo-1"));
    let (mut run, _) = BackupRun::start(&mut s, "d1", "/media/usb", Some(vec![]), 100);
    let a = run.step(&mut s, RunEvent::RepositoryChecked(true), 101);
    assert!(matches!(a, RunAction::Finished(Err(AgentError::NoSources))));
    let (mut run, _) = BackupRun::start(&mut s, "d1", "/media/usb", None, 100);
    let a = run.step(&mut s, RunEvent::RepositoryChecked(true), 101);
    assert!(matches!(a, RunAction::Finished(Err(AgentError::Config))));
}

#[test]
fn unknown_drive_ends_at_once() {
    let mut s = state(None);
    let (run, a) = BackupRun::start(&mut s, "nope", "/media/usb", sources(), 100);
    assert!(matches!(a, RunAction::Finished(Err(AgentError::NotFound))));
    assert_eq!(run.stage, RunStage::Done);
    assert_eq!(s.last_run.as_ref().unwrap().status, RunStatus::Failed);
}

#[test]
fn sources_expand_home() {
    let mut config = AgentConfig::default();
    config.backup_sources.push(BackupSource {
        label: "Abs".to_string(),
        path: "/srv/data".to_string(),
    });
    let v = expand_sources_in(&config, "any", "/home/u");
    assert_eq!(
        v,
        vec!["/home/u/Documents", "/home/u/Pictures", "/home/u/Desktop", "/srv/data"]
    );
}

#[test]
fn run_label_falls_back_to_identity_prefix() {
    let s = state(None);
    assert_eq!(run_label(&s.config, "d1"), "Office");
    assert_eq!(run_label(&s.config, "0123456789abcdef"), "0123456789ab");
}
