use aegis_agent::config::{sanitize_label, AgentConfig, BackupSource, TrustedDrive, LABEL_MAX_LEN};
use std::path::Path;

fn drive(id: &str, label: Option<&str>) -> TrustedDrive {
    TrustedDrive {
        drive_id: id.to_string(),
        label: label.map(|l| l.to_string()),
        repository_path: "backup".to_string(),
        repository_id: None,
        last_seen_epoch: None,
        last_backup_epoch: None,
        last_backup_snapshot_id: None,
        backup_sources: None,
    }
}

#[test]
fn sanitize_label_empty_and_whitespace() {
    assert_eq!(sanitize_label(""), None);
    assert_eq!(sanitize_label("   "), None);
    assert_eq!(sanitize_label("\t\n"), None);
}

#[test]
fn sanitize_label_trim() {
    assert_eq!(sanitize_label("  my drive  "), Some("my drive".to_string()));
}

#[test]
fn sanitize_label_strips_control_chars() {
    assert_eq!(sanitize_label("a\u{00}b\u{1f}c"), Some("abc".to_string()));
    assert_eq!(sanitize_label("ok\u{0c}"), Some("ok".to_string()));
}

#[test]
fn sanitize_label_caps_length() {
    let long = "a".repeat(LABEL_MAX_LEN + 100);
    let out = sanitize_label(&long).unwrap();
    assert_eq!(out.len(), LABEL_MAX_LEN);
    assert!(out.chars().all(|c| c == 'a'));
}

#[test]
fn sanitize_label_unicode_ok() {
    assert_eq!(sanitize_label("ドライブ"), Some("ドライブ".to_string()));
}

#[test]
fn repository_path_for_unknown_drive() {
    let config = AgentConfig::default();
    assert_eq!(config.repository_path_for("unknown", "/media/drive"), None);
}

#[test]
fn repository_path_for_known_drive() {
    let mut config = AgentConfig::default();
    config.trust_drive(TrustedDrive {
        drive_id: "drive-1".to_string(),
        label: Some("USB".to_string()),
        repository_path: "backup".to_string(),
        repository_id: None,
        last_seen_epoch: None,
        last_backup_epoch: None,
        last_backup_snapshot_id: None,
        backup_sources: None,
    });
    let path = config
        .repository_path_for("drive-1", "/media/usb")
        .expect("should be some");
    assert_eq!(Path::new(&path), Path::new("/media/usb/backup"));
}

#[test]
fn sanitizing_twice_changes_nothing() {
    for s in ["  a\u{7f}b  ", "x\u{85} y\u{0}", " \u{3000}label\u{2028} ", "plain"] {
        let once = sanitize_label(s).unwrap();
        assert_eq!(sanitize_label(&once), Some(once.clone()));
        assert!(!once.chars().any(|c| c.is_control()));
    }
}

#[test]
fn sanitize_label_trims_after_truncating() {
    let mut s = "b".repeat(LABEL_MAX_LEN - 1);
    s.push(' ');
    s.push_str("tail");
    let out = sanitize_label(&s).unwrap();
    assert_eq!(out, "b".repeat(LABEL_MAX_LEN - 1));
}

#[test]
fn sanitize_label_only_controls_is_absent() {
    assert_eq!(sanitize_label("\u{1}\u{2}\u{9f}"), None);
    assert_eq!(sanitize_label("\u{3000}\u{a0}"), None);
}

#[test]
fn label_exists_ignores_case_and_spaces() {
    let mut config = AgentConfig::default();
    config.trust_drive(drive("d1", Some("Office USB")));
    assert!(config.label_exists("  office usb ", None));
    assert!(config.label_exists("OFFICE USB", None));
    assert!(!config.label_exists("office usb", Some("d1")));
    assert!(!config.label_exists("   ", None));
    assert!(!config.label_exists("home", None));
}

#[test]
fn trust_drive_replaces_same_identity() {
    let mut config = AgentConfig::default();
    assert!(config.is_first_run());
    config.trust_drive(drive("d1", Some("one")));
    config.trust_drive(drive("d2", Some("two")));
    config.trust_drive(drive("d1", Some("uno")));
    assert_eq!(config.trusted_drives.len(), 2);
    assert_eq!(config.trusted_drives[0].label.as_deref(), Some("uno"));
    assert!(!config.is_first_run());
    let removed = config.remove_drive("d2").unwrap();
    assert_eq!(removed.drive_id, "d2");
    assert!(config.remove_drive("d2").is_none());
}

#[test]
fn backup_sources_for_drive_prefers_its_own_list() {
    let mut config = AgentConfig::default();
    let mut d = drive("d1", None);
    d.backup_sources = Some(vec![BackupSource {
        label: "Code".to_string(),
        path: "~/code".to_string(),
    }]);
    config.trust_drive(d);
    config.trust_drive(drive("d2", None));
    let own = config.backup_sources_for_drive("d1");
    assert_eq!(own.len(), 1);
    assert_eq!(own[0].label, "Code");
    let global = config.backup_sources_for_drive("d2");
    assert_eq!(global.len(), 3);
    assert_eq!(global[0].path, "~/Documents");
    assert_eq!(config.backup_sources_for_drive("nope").len(), 3);
}

#[test]
fn bookkeeping_updates_only_the_named_drive() {
    let mut config = AgentConfig::default();
    config.trust_drive(drive("d1", None));
    config.trust_drive(drive("d2", None));
    config.record_last_seen("d2", 77);
    config.update_last_backup("d2", 88, Some("snap".to_string()));
    assert!(config.set_repository_id("d2", "repo-9"));
    assert!(!config.set_repository_id("d3", "repo-9"));
    assert_eq!(config.trusted_drives[1].last_seen_epoch, Some(77));
    assert_eq!(config.trusted_drives[1].last_backup_epoch, Some(88));
    assert_eq!(config.trusted_drives[1].last_backup_snapshot_id.as_deref(), Some("snap"));
    assert_eq!(config.trusted_drives[1].repository_id.as_deref(), Some("repo-9"));
    assert_eq!(config.trusted_drives[0].last_seen_epoch, None);
    config.update_last_seen("d1");
    assert!(config.trusted_drives[0].last_seen_epoch.is_some());
}

#[test]
fn paranoid_mode_turns_off_passphrase_caching() {
    let mut config = AgentConfig::default();
    config.paranoid_mode = true;
    config.enforce_security_invariants();
    assert!(!config.remember_passphrase);
}

#[test]
fn loaded_config_gets_sanitized_labels() {
    let mut config = AgentConfig::default();
    let mut d = drive("d1", Some("  bad\u{1}label "));
    d.backup_sources = Some(vec![BackupSource {
        label: "\u{2}".to_string(),
        path: "/x".to_string(),
    }]);
    config.trust_drive(d);
    config.backup_sources[0].label = "   ".to_string();
    config.paranoid_mode = true;
    config.sanitize_loaded();
    assert_eq!(config.trusted_drives[0].label.as_deref(), Some("badlabel"));
    let own = config.trusted_drives[0].backup_sources.as_ref().unwrap();
    assert_eq!(own[0].label, "Source");
    assert_eq!(config.backup_sources[0].label, "Source");
    assert!(!config.remember_passphrase);
}

#[test]
fn duplicate_identities_are_detected() {
    let mut config = AgentConfig::default();
    assert!(config.has_unique_ids());
    config.trust_drive(drive("d1", None));
    config.trust_drive(drive("d2", None));
    assert!(config.has_unique_ids());
    config.trusted_drives.push(drive("d1", Some("again")));
    assert!(!config.has_unique_ids());
}
