use aegis_agent::drive::{marker_path, DriveMarker};

#[test]
fn marker_path_joins_under_aegis() {
    let p = marker_path("/media/usb");
    assert_eq!(std::path::Path::new(&p), std::path::Path::new("/media/usb/.aegis/drive.json"));
}

#[test]
fn marker_path_with_trailing_separator() {
    assert_eq!(marker_path("/media/usb/"), "/media/usb/.aegis/drive.json");
}

#[test]
fn identity_is_hex_sha256_of_seed() {
    let m = DriveMarker::from_seed(Some("USB".to_string()), &vec![0u8; 32], 5);
    assert_eq!(
        m.drive_id,
        "66687aadf862bd776c8fc18b8e9f8e20089714856ee233b3902a591d0d5f2925"
    );
    assert_eq!(m.created_epoch, 5);
    assert_eq!(m.repository_id, None);
}

#[test]
fn fresh_markers_have_distinct_hex_identities() {
    let a = DriveMarker::new(None);
    let b = DriveMarker::new(Some("x".to_string()));
    assert_eq!(a.drive_id.len(), 64);
    assert!(a.drive_id.chars().all(|c| c.is_ascii_hexdigit() && !c.is_ascii_uppercase()));
    assert_ne!(a.drive_id, b.drive_id);
    assert_eq!(b.label.as_deref(), Some("x"));
}

#[test]
fn marker_read_back_keeps_identity_and_repository() {
    let written = DriveMarker {
        drive_id: "abc".to_string(),
        created_epoch: 9,
        label: Some("  my\u{7}drive ".to_string()),
        repository_id: Some("repo-1".to_string()),
    };
    let read = written.clone().sanitized();
    assert_eq!(read.drive_id, "abc");
    assert_eq!(read.repository_id.as_deref(), Some("repo-1"));
    assert_eq!(read.label.as_deref(), Some("mydrive"));
    let again = read.clone().sanitized();
    assert_eq!(again.label, read.label);
}

#[test]
fn marker_updates_keep_identity() {
    let m = DriveMarker::from_seed(None, &vec![1u8; 32], 1);
    let id = m.drive_id.clone();
    let m = m.with_repository_id("r1").with_label("new");
    assert_eq!(m.drive_id, id);
    assert_eq!(m.repository_id.as_deref(), Some("r1"));
    assert_eq!(m.label.as_deref(), Some("new"));
}
