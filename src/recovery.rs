//! The recovery kit: what a new machine needs to find and open a drive's
//! repository. It never holds the passphrase.
use vstd::prelude::*;
use crate::config::{clone_opt, TrustedDrive};
use crate::text::{copy_str, push_str};

verus! {

pub struct RecoveryKit {
    pub drive_id: String,
    pub repository_id: Option<String>,
    pub repository_path: String,
    pub created_epoch: u64,
    pub instructions: String,
}

pub open spec fn instructions_text() -> Seq<char> {
    "Aegis Recovery Kit\n\n"@ + "This kit lets you restore backups on a new machine.\n"@
        + "You will need:\n"@ + "- The USB drive containing the Aegis repository\n"@
        + "- Your passphrase (Aegis never stores it on the drive)\n\n"@ + "Steps:\n"@
        + "1) Install Aegis or restic on the new machine.\n"@
        + "2) Locate the repository path from recovery.json.\n"@
        + "3) Use the passphrase to unlock and restore.\n\n"@ + "Notes:\n"@
        + "- This kit contains no secrets.\n"@
        + "- If you enabled Paranoid Mode, the passphrase is never stored anywhere.\n"@
}

pub fn default_instructions() -> (r: String)
    ensures
        r@ == instructions_text(),
{
    let mut text = String::new();
    push_str(&mut text, "Aegis Recovery Kit\n\n");
    push_str(&mut text, "This kit lets you restore backups on a new machine.\n");
    push_str(&mut text, "You will need:\n");
    push_str(&mut text, "- The USB drive containing the Aegis repository\n");
    push_str(&mut text, "- Your passphrase (Aegis never stores it on the drive)\n\n");
    push_str(&mut text, "Steps:\n");
    push_str(&mut text, "1) Install Aegis or restic on the new machine.\n");
    push_str(&mut text, "2) Locate the repository path from recovery.json.\n");
    push_str(&mut text, "3) Use the passphrase to unlock and restore.\n\n");
    push_str(&mut text, "Notes:\n");
    push_str(&mut text, "- This kit contains no secrets.\n");
    push_str(&mut text, "- If you enabled Paranoid Mode, the passphrase is never stored anywhere.\n");
    assert(text@ =~= instructions_text());
    text
}

impl RecoveryKit {
    /// The kit for `drive`, created at `created_epoch`.
    pub fn for_drive(drive: &TrustedDrive, created_epoch: u64) -> (r: RecoveryKit)
        ensures
            r.drive_id@ == drive.drive_id@,
            r.repository_id == drive.repository_id,
            r.repository_path@ == drive.repository_path@,
            r.created_epoch == created_epoch,
            r.instructions@ == instructions_text(),
    {
        RecoveryKit {
            drive_id: copy_str(drive.drive_id.as_str()),
            repository_id: clone_opt(&drive.repository_id),
            repository_path: copy_str(drive.repository_path.as_str()),
            created_epoch,
            instructions: default_instructions(),
        }
    }
}

} // verus!
