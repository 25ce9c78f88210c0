use aegis_agent::config::{AgentConfig, BackupSource, TrustedDrive};
use aegis_agent::errors::AgentError;
use aegis_agent::drive::DriveMarker;
use aegis_agent::ipc::{
    drawn_label, setup_marker, setup_repo_step, SetupRepoStep, cached_passphrase, check_passphrase, check_restore_target, default_drive_label,
    resolve_passphrase, setup_label, setup_repo_path, setup_sources, ConfigUpdate,
    PassphraseSource,
};
use aegis_agent::logging::Redact;
use aegis_agent::notifications::{notify_backup_finished, notify_backup_started, notify_trusted_device};
use aegis_agent::recovery::{default_instructions, RecoveryKit};
use aegis_agent::retention::RetentionPolicy;
use aegis_agent::state::AgentRuntimeState;

fn drive(id: &str, label: Option<&str>) -> TrustedDrive {
    TrustedDrive {
        drive_id: id.to_string(),
        label: label.map(|l| l.to_string()),
        repository_path: ".aegis/repo".to_string(),
        repository_id: Some("repo".to_string()),
        last_seen_epoch: None,
        last_backup_epoch: Some(5),
        last_backup_snapshot_id: None,
        backup_sources: None,
    }
}

fn state() -> AgentRuntimeState {
    let mut c = AgentConfig::default();
    c.trust_drive(drive("d1", Some("Office")));
    c.trust_drive(drive("d2", Some("Home")));
    AgentRuntimeState::new(c)
}

#[test]
fn setup_label_resolution() {
    let s = state();
    assert_eq!(setup_label(&s.config, Some("  New  "), "backup-abc"), Ok("New".to_string()));
    assert_eq!(setup_label(&s.config, Some("   "), "backup-abc"), Ok("backup-abc".to_string()));
    assert_eq!(setup_label(&s.config, None, "backup-abc"), Ok("backup-abc".to_string()));
    assert_eq!(setup_label(&s.config, Some("\u{1}"), "backup-abc"), Ok("backup-abc".to_string()));
    assert_eq!(setup_label(&s.config, Some("\u{1}"), " "), Ok("backup".to_string()));
    assert_eq!(setup_label(&s.config, Some("office"), "x"), Err(AgentError::Conflict));
    assert_eq!(setup_repo_path("/media/usb"), "/media/usb/.aegis/repo");
}

#[test]
fn generated_labels_are_free() {
    let s = state();
    let l = default_drive_label(&s.config);
    assert!(l.starts_with("backup-"));
    assert!(!s.config.label_exists(&l, None));
    assert!(l[7..].chars().all(|c| c.is_ascii_lowercase() || c.is_ascii_digit()));
}

#[test]
fn setup_sources_and_passphrase_checks() {
    assert!(setup_sources(&None).is_none());
    assert!(setup_sources(&Some(vec![])).is_none());
    let v = setup_sources(&Some(vec![BackupSource { label: " ".to_string(), path: "/p".to_string() }])).unwrap();
    assert_eq!(v[0].label, "Source");
    assert_eq!(check_passphrase("  "), Err(AgentError::InvalidRequest));
    assert_eq!(check_passphrase("secret"), Ok(()));
    assert_eq!(check_restore_target(""), Err(AgentError::InvalidRequest));
}

#[test]
fn passphrase_resolution() {
    let mut c = AgentConfig::default();
    assert!(matches!(resolve_passphrase(&c, Some("pw".to_string())), Ok(PassphraseSource::Provided(ref p)) if p == "pw"));
    assert!(matches!(resolve_passphrase(&c, Some(" ".to_string())), Err(AgentError::InvalidRequest)));
    assert!(matches!(resolve_passphrase(&c, None), Ok(PassphraseSource::Keychain)));
    c.paranoid_mode = true;
    assert!(matches!(resolve_passphrase(&c, None), Err(AgentError::InvalidRequest)));
    assert_eq!(cached_passphrase(None), Err(AgentError::InvalidRequest));
    assert_eq!(cached_passphrase(Some("x".to_string())), Ok("x".to_string()));
}

#[test]
fn complete_setup_trusts_and_connects() {
    let mut s = state();
    let remember = s.complete_setup("d9", "Travel", "repo-9", None, "/media/t", Some("/dev/sdc1".to_string()), true, false);
    assert!(remember);
    let d = s.config.trusted_drives.iter().find(|d| d.drive_id == "d9").unwrap();
    assert_eq!(d.repository_id.as_deref(), Some("repo-9"));
    assert_eq!(d.repository_path, ".aegis/repo");
    assert!(s.drive_status.trusted && s.drive_status.connected);
    assert_eq!(s.ensure_mounted_drive("d9"), Ok("/media/t".to_string()));
    assert_eq!(s.repository_location("d9"), Ok("/media/t/.aegis/repo".to_string()));
    assert_eq!(s.ensure_mounted_drive("d1"), Err(AgentError::NotConnected));
    assert_eq!(s.repository_location("zz"), Err(AgentError::NotFound));
    let paranoid = s.complete_setup("d8", "Other", "r", None, "/m", None, true, true);
    assert!(!paranoid);
    assert!(!s.config.remember_passphrase);
}

#[test]
fn manual_backup_admission() {
    let mut s = state();
    assert_eq!(s.check_backup_request("zz"), Err(AgentError::NotFound));
    assert_eq!(s.check_backup_request("d1"), Ok(()));
    s.try_begin_backup("d1", tokio_util::sync::CancellationToken::new()).unwrap();
    assert_eq!(s.check_backup_request("d1"), Err(AgentError::Conflict));
}

#[test]
fn discontinue_requires_typed_label() {
    let mut s = state();
    assert_eq!(s.discontinue("zz", "x", false), Err(AgentError::NotFound));
    assert_eq!(s.discontinue("d1", "office", false), Err(AgentError::InvalidRequest));
    assert_eq!(s.discontinue("d1", " Office ", true), Err(AgentError::NotConnected));
    assert_eq!(s.discontinue("d1", " Office ", false), Ok(None));
    assert_eq!(s.config.trusted_drives.len(), 1);
    s.complete_setup("d3", "Lab", "r", None, "/m", Some("/dev/sdd1".to_string()), false, false);
    assert_eq!(s.discontinue("d3", "Lab", true), Ok(Some("/dev/sdd1".to_string())));
    s.clear_drive_status();
    assert!(!s.drive_status.connected);
    let mut t = AgentRuntimeState::new(AgentConfig::default());
    t.config.trust_drive(drive("d4", None));
    assert_eq!(t.discontinue("d4", "", false), Err(AgentError::InvalidRequest));
}

#[test]
fn update_drive_renames_and_relabels_marker() {
    let mut s = state();
    s.complete_setup("d5", "Five", "r", None, "/media/five", None, false, false);
    assert!(matches!(s.update_drive("zz", Some("x"), None), Err(AgentError::NotFound)));
    assert!(matches!(s.update_drive("d5", Some("\u{2}"), None), Err(AgentError::InvalidRequest)));
    assert!(matches!(s.update_drive("d5", Some("HOME"), None), Err(AgentError::Conflict)));
    let relabel = s.update_drive("d5", Some(" Fifth "), Some(vec![BackupSource { label: "".to_string(), path: "/x".to_string() }])).unwrap().unwrap();
    assert_eq!(relabel.mount_path, "/media/five");
    assert_eq!(relabel.label, "Fifth");
    assert_eq!(s.drive_status.label.as_deref(), Some("Fifth"));
    let d = s.config.trusted_drives.iter().find(|d| d.drive_id == "d5").unwrap();
    assert_eq!(d.label.as_deref(), Some("Fifth"));
    assert_eq!(d.backup_sources.as_ref().unwrap()[0].label, "Source");
    assert!(s.update_drive("d1", Some("Office"), None).unwrap().is_none());
}

#[test]
fn config_update_sanitizes_and_enforces() {
    let mut c = AgentConfig::default();
    let wipe = c.apply_update(ConfigUpdate {
        backup_sources: vec![BackupSource { label: " Docs\u{7} ".to_string(), path: "~/d".to_string() }],
        include_patterns: vec![],
        exclude_patterns: vec!["*.tmp".to_string()],
        retention: RetentionPolicy::default(),
        quick_verify: false,
        deep_verify: true,
        auto_backup_on_insert: false,
        remember_passphrase: true,
        paranoid_mode: true,
    });
    assert!(wipe);
    assert_eq!(c.backup_sources[0].label, "Docs");
    assert!(!c.remember_passphrase);
    assert!(c.deep_verify && !c.quick_verify);
}

#[test]
fn status_summaries() {
    let mut s = state();
    s.config.trust_drive(drive("0123456789", None));
    s.complete_setup("d2", "Home", "repo", None, "/m", None, false, false);
    let v = s.trusted_drive_summaries();
    assert_eq!(v.len(), 3);
    assert_eq!(v[0].label, "Office");
    assert!(!v[0].is_connected);
    assert!(v[1].is_connected);
    assert_eq!(v[2].label, "drive-01234567");
    assert_eq!(v[0].backup_source_labels, vec!["Documents", "Pictures", "Desktop"]);
    assert_eq!(v[0].last_backup_epoch, Some(5));
}

#[test]
fn notices() {
    let n = notify_backup_started("USB");
    assert_eq!(n.title, "Backup started");
    assert_eq!(n.body, "Backing up to \"USB\"…");
    let n = notify_backup_finished("USB", true, true);
    assert_eq!(n.title, "Backup interrupted");
    assert_eq!(n.body, "Backup to \"USB\" was interrupted (drive disconnected).");
    assert_eq!(notify_backup_finished("USB", true, false).body, "Backup to \"USB\" completed successfully.");
    assert_eq!(notify_backup_finished("USB", false, false).title, "Backup failed");
    assert_eq!(notify_trusted_device("USB").body, "\"USB\" is connected and ready to back up.");
}

#[test]
fn recovery_kit_holds_no_secret() {
    let kit = RecoveryKit::for_drive(&drive("d1", Some("x")), 77);
    assert_eq!(kit.drive_id, "d1");
    assert_eq!(kit.repository_id.as_deref(), Some("repo"));
    assert_eq!(kit.created_epoch, 77);
    assert!(kit.instructions.starts_with("Aegis Recovery Kit\n\n"));
    assert!(default_instructions().ends_with("never stored anywhere.\n"));
}

#[test]
fn redacted_values_show_nothing() {
    let r = Redact::new("secret-path");
    assert_eq!(r.shown(), "<redacted>");
}

#[test]
fn drawn_labels_are_lower_cased() {
    assert_eq!(drawn_label(&vec!['A', 'b', '3', 'Z', 'q', '0']), "backup-ab3zq0");
}

#[test]
fn setup_keeps_an_existing_marker_and_picks_the_repository_step() {
    let existing = DriveMarker {
        drive_id: "abc".to_string(),
        created_epoch: 3,
        label: Some("Old".to_string()),
        repository_id: None,
    };
    let (m, fresh) = setup_marker(Some(existing), "New");
    assert!(!fresh);
    assert_eq!(m.drive_id, "abc");
    let (m, fresh) = setup_marker(None, "New");
    assert!(fresh);
    assert_eq!(m.label.as_deref(), Some("New"));
    assert_eq!(m.drive_id.len(), 64);
    assert_eq!(setup_repo_step(true), SetupRepoStep::ReadId);
    assert_eq!(setup_repo_step(false), SetupRepoStep::Initialize);
    assert_eq!(SetupRepoStep::ReadId.failure(), AgentError::Auth);
    assert_eq!(SetupRepoStep::Initialize.failure(), AgentError::Engine);
}
