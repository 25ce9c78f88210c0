use aegis_agent::devices::{
    aegis_disk_name, classify_tool_failure, find_mount_in_device, find_mountpoint_in,
    generate_aegis_disk_name, help_lists_format, mkfs_args, mkfs_outcome, mount_attempt_outcome,
    mounted_at, normalize_mountpoints, removable_devices, udisks_format_args, unmount_retry_delay,
    unmount_step, LsblkDevice, MkfsStep, MountStep, UnmountStep, MOUNT_ATTEMPTS,
};
use aegis_agent::errors::AgentError;

fn dev(name: &str, devtype: &str) -> LsblkDevice {
    LsblkDevice {
        name: Some(name.to_string()),
        path: Some(format!("/dev/{}", name)),
        size: Some("8G".to_string()),
        model: None,
        rm: None,
        tran: None,
        hotplug: None,
        devtype: Some(devtype.to_string()),
        fstype: None,
        mountpoints: None,
        children: None,
    }
}

#[test]
fn mount_gives_up_after_three_unrecognised_filesystems() {
    let stderr = "Error mounting /dev/sdb1: GDBus.Error: Object is not a mountable filesystem.";
    let mut steps = Vec::new();
    for attempt in 1..=MOUNT_ATTEMPTS {
        steps.push(mount_attempt_outcome(attempt, false, stderr));
    }
    assert_eq!(
        steps,
        vec![
            MountStep::RetryAfter(1200),
            MountStep::RetryAfter(1200),
            MountStep::Fail(AgentError::Device),
        ]
    );
}

#[test]
fn mount_other_failures_are_not_retried() {
    assert_eq!(
        mount_attempt_outcome(1, false, "Error: Not Authorized to perform operation"),
        MountStep::Fail(AgentError::AuthorizationRequired)
    );
    assert_eq!(
        mount_attempt_outcome(1, false, "device busy"),
        MountStep::Fail(AgentError::Device)
    );
    assert_eq!(mount_attempt_outcome(2, true, ""), MountStep::LookUp);
    assert_eq!(mounted_at(None), Err(AgentError::Device));
    assert_eq!(mounted_at(Some("/m".to_string())), Ok("/m".to_string()));
}

#[test]
fn rejected_label_flag_is_retried_with_alternate() {
    let stderr = "mkfs.exfat: invalid option -- 'n'";
    assert_eq!(mkfs_outcome(false, false, stderr), MkfsStep::RetryWithAlternate);
    assert_eq!(mkfs_args(false, "aegis00ff00", "/dev/sdb1"), vec!["-n", "aegis00ff00", "/dev/sdb1"]);
    assert_eq!(mkfs_args(true, "aegis00ff00", "/dev/sdb1"), vec!["-L", "aegis00ff00", "/dev/sdb1"]);
    assert_eq!(
        mkfs_outcome(true, false, "mkfs.exfat: unknown option -- 'L'"),
        MkfsStep::Fail(AgentError::Device)
    );
    assert_eq!(mkfs_outcome(true, true, ""), MkfsStep::Settle);
    assert_eq!(
        mkfs_outcome(false, false, "Authentication failed"),
        MkfsStep::Fail(AgentError::AuthorizationRequired)
    );
}

#[test]
fn unmount_before_format_is_bounded() {
    assert_eq!(unmount_step(1, true), UnmountStep::Unmount);
    assert_eq!(unmount_step(1, false), UnmountStep::Proceed);
    assert_eq!(unmount_step(4, true), UnmountStep::Proceed);
    assert_eq!(unmount_retry_delay(2), Some(800));
    assert_eq!(unmount_retry_delay(3), None);
}

#[test]
fn disk_name_is_prefix_and_six_hex_digits() {
    assert_eq!(aegis_disk_name(0xABCDEF12), "aegiscdef12");
    assert_eq!(aegis_disk_name(0x1f), "aegis00001f");
    let n = generate_aegis_disk_name();
    assert_eq!(n.len(), 11);
    assert!(n.starts_with("aegis"));
    assert_eq!(
        udisks_format_args("/dev/sdb1", "aegis000001"),
        vec!["format", "-b", "/dev/sdb1", "--type", "exfat", "--label", "aegis000001"]
    );
}

#[test]
fn usage_text_with_format_command() {
    assert!(help_lists_format("Usage:\n  udisksctl COMMAND\n\nCommands:\n  help  Shows\n  format  Format a device\n"));
    assert!(!help_lists_format("Commands:\n  mount\n  reformat x\n  unmount\n"));
    assert!(!help_lists_format("x format y\n"));
    assert!(help_lists_format("format -b"));
}

#[test]
fn mountpoints_drop_missing_and_empty() {
    let raw = Some(vec![None, Some(String::new()), Some("/media/a".to_string()), Some("/b".to_string())]);
    assert_eq!(normalize_mountpoints(&raw), vec!["/media/a", "/b"]);
    assert!(normalize_mountpoints(&None).is_empty());
}

#[test]
fn finds_mount_of_nested_partition() {
    let mut part = dev("sdb1", "part");
    part.mountpoints = Some(vec![None, Some("/media/usb".to_string())]);
    let mut crypt = dev("luks", "crypt");
    crypt.path = Some("/dev/mapper/luks".to_string());
    let mut part2 = dev("sdb2", "part");
    part2.children = Some(vec![crypt]);
    let mut disk = dev("sdb", "disk");
    disk.children = Some(vec![part, part2]);
    assert_eq!(find_mount_in_device(&disk, "/dev/sdb1"), Some(Some("/media/usb".to_string())));
    assert_eq!(find_mount_in_device(&disk, "/dev/mapper/luks"), Some(None));
    assert_eq!(find_mount_in_device(&disk, "/dev/sdz"), None);
    let all = vec![dev("sda", "disk"), disk];
    assert_eq!(find_mountpoint_in(&all, "/dev/sdb1"), Some("/media/usb".to_string()));
    assert_eq!(find_mountpoint_in(&all, "/dev/sda"), None);
}

#[test]
fn removable_disks_are_listed_with_partitions() {
    let mut usb = dev("sdb", "disk");
    usb.tran = Some("usb".to_string());
    usb.path = None;
    let mut part1 = dev("sdb1", "part");
    part1.fstype = Some("exfat".to_string());
    part1.mountpoints = Some(vec![Some("/media/x".to_string())]);
    usb.children = Some(vec![part1, dev("sdb-crypt", "crypt")]);
    let fixed = dev("sda", "disk");
    let mut card = dev("mmcblk0", "disk");
    card.rm = Some(true);
    card.name = None;
    card.size = None;
    let mut rom = dev("sr0", "rom");
    rom.hotplug = Some(true);
    let list = removable_devices(&vec![fixed, usb, rom, card]);
    assert_eq!(list.len(), 2);
    assert_eq!(list[0].path, "/dev/sdb");
    assert!(list[0].removable);
    assert_eq!(list[0].partitions.len(), 1);
    assert_eq!(list[0].partitions[0].fstype.as_deref(), Some("exfat"));
    assert_eq!(list[0].partitions[0].mountpoints, vec!["/media/x"]);
    assert_eq!(list[1].name, "unknown");
    assert_eq!(list[1].size, "unknown");
    assert_eq!(list[1].path, "/dev/mmcblk0");
}

#[test]
fn authorization_denials_are_told_apart() {
    assert_eq!(classify_tool_failure("NOT AUTHORIZED"), AgentError::AuthorizationRequired);
    assert_eq!(classify_tool_failure("plain failure"), AgentError::Device);
}
