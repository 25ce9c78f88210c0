//! The desktop notices for backup events and trusted-drive arrival; sending
//! them is left to the caller.
use vstd::prelude::*;
use crate::text::{copy_str, push_str};

verus! {

pub struct Notification {
    pub title: String,
    pub body: String,
}

/// `before`, the label in double quotes, then `after`.
pub open spec fn quoted(before: Seq<char>, label: Seq<char>, after: Seq<char>) -> Seq<char> {
    before + "\""@ + label + "\""@ + after
}

fn quote_in(before: &str, label: &str, after: &str) -> (r: String)
    ensures
        r@ == quoted(before@, label@, after@),
{
    let mut s = copy_str(before);
    push_str(&mut s, "\"");
    push_str(&mut s, label);
    push_str(&mut s, "\"");
    push_str(&mut s, after);
    s
}

pub fn notify_backup_started(drive_label: &str) -> (r: Notification)
    ensures
        r.title@ == "Backup started"@,
        r.body@ == quoted("Backing up to "@, drive_label@, "…"@),
{
    Notification {
        title: copy_str("Backup started"),
        body: quote_in("Backing up to ", drive_label, "…"),
    }
}

/// The notice at the end of a run: interrupted, else completed or failed.
pub fn notify_backup_finished(drive_label: &str, success: bool, interrupted: bool) -> (r:
    Notification)
    ensures
        interrupted ==> r.title@ == "Backup interrupted"@ && r.body@ == quoted(
            "Backup to "@,
            drive_label@,
            " was interrupted (drive disconnected)."@,
        ),
        !interrupted && success ==> r.title@ == "Backup completed"@ && r.body@ == quoted(
            "Backup to "@,
            drive_label@,
            " completed successfully."@,
        ),
        !interrupted && !success ==> r.title@ == "Backup failed"@ && r.body@ == quoted(
            "Backup to "@,
            drive_label@,
            " failed."@,
        ),
{
    if interrupted {
        Notification {
            title: copy_str("Backup interrupted"),
            body: quote_in("Backup to ", drive_label, " was interrupted (drive disconnected)."),
        }
    } else if success {
        Notification {
            title: copy_str("Backup completed"),
            body: quote_in("Backup to ", drive_label, " completed successfully."),
        }
    } else {
        Notification {
            title: copy_str("Backup failed"),
            body: quote_in("Backup to ", drive_label, " failed."),
        }
    }
}

pub fn notify_trusted_device(drive_label: &str) -> (r: Notification)
    ensures
        r.title@ == "Aegis drive connected"@,
        r.body@ == quoted(""@, drive_label@, " is connected and ready to back up."@),
{
    Notification {
        title: copy_str("Aegis drive connected"),
        body: quote_in("", drive_label, " is connected and ready to back up."),
    }
}

} // verus!
