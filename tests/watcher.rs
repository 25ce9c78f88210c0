use aegis_agent::usb::{
    is_removable_device, is_usb_device, is_usb_devnode, is_watched_devtype, parse_mount_table,
    resolve_device_for_mount, unescape_mount, UdevProps,
};

fn props(bus: Option<&str>, removable: Option<&str>) -> UdevProps {
    UdevProps {
        id_bus: bus.map(|s| s.to_string()),
        removable: removable.map(|s| s.to_string()),
        drive_thumb: None,
        drive_flash_sd: None,
        drive_flash: None,
    }
}

#[test]
fn mount_fields_are_unescaped() {
    assert_eq!(unescape_mount("/media/My\\040Drive"), "/media/My Drive");
    assert_eq!(unescape_mount("a\\011b\\012c\\134d"), "a\tb\nc\\d");
    assert_eq!(unescape_mount("\\134040"), "\\040");
    assert_eq!(unescape_mount("\\04"), "\\04");
}

#[test]
fn mount_table_lines_give_device_and_path() {
    let table = "sysfs /sys sysfs rw 0 0\n/dev/sdb1 /media/u/My\\040USB exfat rw 0 0\n\nshort\n  /dev/sdc1\t/mnt/c ext4 rw";
    let entries = parse_mount_table(table);
    let pairs: Vec<(String, String)> = entries
        .iter()
        .map(|e| (e.device.clone(), e.mount_path.clone()))
        .collect();
    assert_eq!(
        pairs,
        vec![
            ("sysfs".to_string(), "/sys".to_string()),
            ("/dev/sdb1".to_string(), "/media/u/My USB".to_string()),
            ("/dev/sdc1".to_string(), "/mnt/c".to_string()),
        ]
    );
    assert_eq!(
        resolve_device_for_mount(&entries, "/media/u/My USB"),
        Some("/dev/sdb1".to_string())
    );
    assert_eq!(resolve_device_for_mount(&entries, "/nowhere"), None);
}

#[test]
fn usb_recognised_on_device_or_ancestor() {
    assert!(is_usb_device(&vec![props(None, None), props(Some("usb"), None)]));
    assert!(is_usb_device(&vec![props(Some("ata"), Some("1"))]));
    assert!(!is_usb_device(&vec![props(Some("ata"), Some("0")), props(None, None)]));
    let mut thumb = props(None, None);
    thumb.drive_thumb = Some("1".to_string());
    assert!(is_removable_device(&thumb));
    assert!(is_usb_device(&vec![props(None, None), thumb]));
    assert!(is_usb_devnode(&vec![props(None, Some("1")), props(Some("usb"), None)]));
    assert!(!is_usb_devnode(&vec![props(None, Some("1"))]));
    assert!(is_watched_devtype("partition"));
    assert!(!is_watched_devtype("loop"));
}
