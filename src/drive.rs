//! The identity marker kept on the removable medium itself.
use vstd::prelude::*;
use crate::config::{clone_opt, now_epoch, opt_str, sanitize_label, sanitized};
use crate::rng::{hex_encode, random_bytes, sha256, sha256_of};
use crate::text::{copy_str, hex_of, join_path, join_path_str};

verus! {

pub struct DriveMarker {
    pub drive_id: String,
    pub created_epoch: u64,
    pub label: Option<String>,
    pub repository_id: Option<String>,
}

/// A label as read from the medium: sanitized, or absent.
pub open spec fn label_as_read(l: Option<String>) -> Option<Seq<char>> {
    match l {
        Some(s) => sanitized(s@),
        None => None,
    }
}

impl DriveMarker {
    /// A marker with a fresh random identity: the hex SHA-256 digest of 32 random bytes.
    pub fn new(label: Option<String>) -> (r: DriveMarker)
        ensures
            exists|b: Seq<u8>| b.len() == 32 && r.drive_id@ == hex_of(sha256_of(b)),
            r.label == label,
            r.repository_id is None,
    {
        let seed = random_bytes();
        let created = now_epoch();
        DriveMarker::from_seed(label, &seed, created)
    }

    /// The marker whose identity derives from `seed`.
    pub fn from_seed(label: Option<String>, seed: &Vec<u8>, created_epoch: u64) -> (r: DriveMarker)
        ensures
            r.drive_id@ == hex_of(sha256_of(seed@)),
            r.created_epoch == created_epoch,
            r.label == label,
            r.repository_id is None,
    {
        let digest = sha256(seed);
        DriveMarker {
            drive_id: hex_encode(&digest),
            created_epoch,
            label,
            repository_id: None,
        }
    }

    /// The marker as it is trusted after reading it from the medium: its label
    /// sanitized, everything else as stored.
    pub fn sanitized(self) -> (r: DriveMarker)
        ensures
            read_back(self, r),
    {
        let label = match &self.label {
            Some(l) => sanitize_label(l.as_str()),
            None => None,
        };
        DriveMarker { label, ..self }
    }

    /// The same marker with its repository id set.
    pub fn with_repository_id(self, repo_id: &str) -> (r: DriveMarker)
        ensures
            r.drive_id == self.drive_id,
            r.created_epoch == self.created_epoch,
            r.label == self.label,
            opt_str(r.repository_id) == Some(repo_id@),
    {
        DriveMarker { repository_id: Some(copy_str(repo_id)), ..self }
    }

    /// The same marker with its label replaced.
    pub fn with_label(self, label: &str) -> (r: DriveMarker)
        ensures
            r.drive_id == self.drive_id,
            r.created_epoch == self.created_epoch,
            r.repository_id == self.repository_id,
            opt_str(r.label) == Some(label@),
    {
        DriveMarker { label: Some(copy_str(label)), ..self }
    }
}

impl Clone for DriveMarker {
    fn clone(&self) -> (r: Self)
        ensures
            r == *self,
    {
        DriveMarker {
            drive_id: self.drive_id.clone(),
            created_epoch: self.created_epoch,
            label: clone_opt(&self.label),
            repository_id: clone_opt(&self.repository_id),
        }
    }
}

/// What a marker read back from the medium holds, given what was written.
pub open spec fn read_back(m: DriveMarker, r: DriveMarker) -> bool {
    &&& r.drive_id == m.drive_id
    &&& r.created_epoch == m.created_epoch
    &&& r.repository_id == m.repository_id
    &&& opt_str(r.label) == label_as_read(m.label)
}

/// Writing a marker and reading it back keeps its identity and repository id and
/// yields its label sanitized; a marker whose label was already sanitized comes
/// back with the same label.
pub proof fn lemma_marker_round_trip(m: DriveMarker, r: DriveMarker)
    requires
        read_back(m, r),
    ensures
        r.drive_id@ == m.drive_id@,
        opt_str(r.repository_id) == opt_str(m.repository_id),
        (m.label matches Some(l) && sanitized(l@) == Some(l@)) ==> opt_str(r.label) == opt_str(
            m.label,
        ),
        m.label is None ==> r.label is None,
{
}

/// Where the marker lies under the mount root `root`.
pub open spec fn marker_path_of(root: Seq<char>) -> Seq<char> {
    join_path(join_path(root, ".aegis"@), "drive.json"@)
}

pub fn marker_path(root: &str) -> (r: String)
    ensures
        r@ == marker_path_of(root@),
{
    let dir = join_path_str(root, ".aegis");
    join_path_str(dir.as_str(), "drive.json")
}

} // verus!
