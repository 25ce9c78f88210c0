//! The decisions behind the control-plane operations: drive setup, rename,
//! discontinue, configuration updates, passphrase resolution, manual backup and
//! restore admission, and the status summaries.
use vstd::prelude::*;
use crate::config::{
    clone_opt, find_drive, find_drive_index, label_taken, opt_str, sanitize_label, sanitize_sources,
    sanitized, sources_sanitized, upsert, AgentConfig, BackupSource, TrustedDrive,
};
use crate::drive::DriveMarker;
use crate::errors::AgentError;
use crate::rng::sha256_of;
use crate::retention::RetentionPolicy;
use crate::rng::{is_ascii_alnum, random_alphanumeric, random_u32};
use crate::state::{opt_is, AgentRuntimeState, DriveStatus};
use crate::text::{
    ascii_lower, ascii_lower_char, ascii_lowered, chars_of, concat2, copy_str, decimal, hex_of, join_path, join_path_str, prefix, prefix_chars,
    push_char, push_decimal, str_eq, string_of, trim, trim_chars,
};

verus! {

/// Where a drive's repository lives, relative to its mount root.
pub open spec fn repo_rel() -> Seq<char> {
    ".aegis/repo"@
}

pub fn setup_repo_path(mount_path: &str) -> (r: String)
    ensures
        r@ == join_path(mount_path@, repo_rel()),
{
    join_path_str(mount_path, ".aegis/repo")
}

/// The label used when no random one was free.
pub open spec fn fallback_label(n: u32) -> Seq<char> {
    "backup-"@ + decimal((n % 1000000) as nat)
}

/// A small ASCII letter or a digit.
pub open spec fn is_small_alnum(c: char) -> bool {
    ('a' <= c && c <= 'z') || ('0' <= c && c <= '9')
}

/// The label made from drawn characters: `backup-` and the characters, lower-cased.
pub open spec fn drawn_label_of(cs: Seq<char>) -> Seq<char> {
    "backup-"@ + ascii_lowered(cs)
}

/// `backup-` and six small letters or digits.
pub open spec fn is_drawn_form(l: Seq<char>) -> bool {
    &&& l.len() == 13
    &&& l.take(7) == "backup-"@
    &&& forall|i: int| 7 <= i < 13 ==> is_small_alnum(#[trigger] l[i])
}

/// The label for the drawn characters `cs`.
pub fn drawn_label(cs: &Vec<char>) -> (r: String)
    ensures
        r@ == drawn_label_of(cs@),
        (cs@.len() == 6 && forall|i: int| 0 <= i < 6 ==> is_ascii_alnum(#[trigger] cs@[i]))
            ==> is_drawn_form(r@),
{
    let mut r = copy_str("backup-");
    proof {
        reveal_strlit("backup-");
    }
    let mut i: usize = 0;
    while i < cs.len()
        invariant
            i <= cs.len(),
            "backup-"@.len() == 7,
            r@ == "backup-"@ + ascii_lowered(cs@.take(i as int)),
        decreases cs.len() - i,
    {
        push_char(&mut r, ascii_lower_char(cs[i]));
        assert(ascii_lowered(cs@.take(i as int + 1)) =~= ascii_lowered(cs@.take(i as int)).push(
            ascii_lower(cs@[i as int]),
        ));
        assert(r@ =~= "backup-"@ + ascii_lowered(cs@.take(i as int + 1)));
        i += 1;
    }
    assert(cs@.take(cs.len() as int) =~= cs@);
    proof {
        if cs@.len() == 6 && forall|i: int| 0 <= i < 6 ==> is_ascii_alnum(#[trigger] cs@[i]) {
            assert(r@.take(7) =~= "backup-"@);
            assert forall|i: int| 7 <= i < 13 implies is_small_alnum(#[trigger] r@[i]) by {
                let c = cs@[i - 7];
                assert(is_ascii_alnum(c));
                assert(r@[i] == ascii_lower(c));
                if 'A' <= c && c <= 'Z' {
                    assert(65 <= c as u32 <= 90);
                    assert(97 <= ((c as u32 + 32) as u8) <= 122);
                }
            }
        }
    }
    r
}

/// A generated label: `backup-` and six random small letters or digits that no
/// trusted drive uses yet, or after twenty tries `backup-` and a number below a million.
pub fn default_drive_label(config: &AgentConfig) -> (r: String)
    ensures
        (is_drawn_form(r@) && !label_taken(config.trusted_drives@, r@, None)) || exists|n: u32|
            #[trigger] fallback_label(n) == r@,
{
    let mut attempt: u32 = 0;
    while attempt < 20
        decreases 20 - attempt,
    {
        let mut drawn: Vec<char> = Vec::new();
        while drawn.len() < 6
            invariant
                drawn@.len() <= 6,
                forall|i: int| 0 <= i < drawn@.len() ==> is_ascii_alnum(#[trigger] drawn@[i]),
            decreases 6 - drawn@.len(),
        {
            drawn.push(random_alphanumeric());
        }
        let label = drawn_label(&drawn);
        if !config.label_exists(label.as_str(), None) {
            return label;
        }
        attempt += 1;
    }
    let n = random_u32();
    let mut label = copy_str("backup-");
    push_decimal(&mut label, (n % 1000000) as u64);
    assert(fallback_label(n) == label@);
    label
}

/// The label a requested setup label resolves to: the request trimmed when it is
/// not blank, else `fallback`; sanitized, else `fallback` sanitized, else `backup`.
pub open spec fn setup_label_of(requested: Option<Seq<char>>, fallback: Seq<char>) -> Seq<char> {
    let raw = match requested {
        Some(l) => if trim(l).len() > 0 {
            trim(l)
        } else {
            fallback
        },
        None => fallback,
    };
    match sanitized(raw) {
        Some(t) => t,
        None => match sanitized(fallback) {
            Some(t) => t,
            None => "backup"@,
        },
    }
}

pub open spec fn opt_view(o: Option<&str>) -> Option<Seq<char>> {
    match o {
        Some(s) => Some(s@),
        None => None,
    }
}

/// The label for a drive being set up; a label another trusted drive has is refused.
pub fn setup_label(config: &AgentConfig, requested: Option<&str>, fallback: &str) -> (r: Result<
    String,
    AgentError,
>)
    ensures
        label_taken(config.trusted_drives@, setup_label_of(opt_view(requested), fallback@), None)
            ==> r == Err::<String, AgentError>(AgentError::Conflict),
        !label_taken(config.trusted_drives@, setup_label_of(opt_view(requested), fallback@), None)
            ==> r is Ok && r->Ok_0@ == setup_label_of(opt_view(requested), fallback@),
{
    let raw = match requested {
        Some(l) => {
            let t = trim_chars(&chars_of(l));
            if t.len() > 0 {
                string_of(&t)
            } else {
                copy_str(fallback)
            }
        },
        None => copy_str(fallback),
    };
    let label = match sanitize_label(raw.as_str()) {
        Some(t) => t,
        None => match sanitize_label(fallback) {
            Some(t) => t,
            None => copy_str("backup"),
        },
    };
    if config.label_exists(label.as_str(), None) {
        Err(AgentError::Conflict)
    } else {
        Ok(label)
    }
}

/// What setup does with the repository directory.
#[derive(Debug, Clone, Copy, PartialEq, Eq, Structural)]
pub enum SetupRepoStep {
    /// A repository exists: read its id, which also checks the passphrase.
    ReadId,
    /// None exists yet: initialize one.
    Initialize,
}

impl SetupRepoStep {
    /// The error reported when this step fails: a wrong passphrase for an existing
    /// repository, an engine failure for a new one.
    pub fn failure(self) -> (r: AgentError)
        ensures
            self == SetupRepoStep::ReadId ==> r == AgentError::Auth,
            self == SetupRepoStep::Initialize ==> r == AgentError::Engine,
    {
        match self {
            SetupRepoStep::ReadId => AgentError::Auth,
            SetupRepoStep::Initialize => AgentError::Engine,
        }
    }
}

/// Setup reads the id of an existing repository and initializes a missing one.
pub fn setup_repo_step(repository_exists: bool) -> (r: SetupRepoStep)
    ensures
        repository_exists ==> r == SetupRepoStep::ReadId,
        !repository_exists ==> r == SetupRepoStep::Initialize,
{
    if repository_exists {
        SetupRepoStep::ReadId
    } else {
        SetupRepoStep::Initialize
    }
}

/// The marker a drive is set up with: the one already on the medium, else a fresh one
/// carrying `label`, which must then be written (the flag).
pub fn setup_marker(existing: Option<DriveMarker>, label: &str) -> (r: (DriveMarker, bool))
    ensures
        match existing {
            Some(m) => r.0 == m && !r.1,
            None => {
                &&& r.1
                &&& opt_str(r.0.label) == Some(label@)
                &&& r.0.repository_id is None
                &&& exists|b: Seq<u8>| b.len() == 32 && #[trigger] hex_of(sha256_of(b)) == r.0.drive_id@
            },
        },
{
    match existing {
        Some(m) => (m, false),
        None => {
            let m = DriveMarker::new(Some(copy_str(label)));
            (m, true)
        },
    }
}

/// Per-drive sources of a setup request: none when absent or empty, else each with
/// its label sanitized.
pub fn setup_sources(requested: &Option<Vec<BackupSource>>) -> (r: Option<Vec<BackupSource>>)
    ensures
        match *requested {
            Some(v) => if v@.len() > 0 {
                r is Some && sources_sanitized(v@, r->0@)
            } else {
                r is None
            },
            None => r is None,
        },
{
    match requested {
        Some(v) => if v.len() > 0 {
            Some(sanitize_sources(v))
        } else {
            None
        },
        None => None,
    }
}

/// A passphrase must not be blank.
pub fn check_passphrase(p: &str) -> (r: Result<(), AgentError>)
    ensures
        r is Ok <==> trim(p@).len() > 0,
        r is Err ==> r == Err::<(), AgentError>(AgentError::InvalidRequest),
{
    if trim_chars(&chars_of(p)).len() == 0 {
        Err(AgentError::InvalidRequest)
    } else {
        Ok(())
    }
}

/// A restore needs a target path that is not blank.
pub fn check_restore_target(target: &str) -> (r: Result<(), AgentError>)
    ensures
        r is Ok <==> trim(target@).len() > 0,
        r is Err ==> r == Err::<(), AgentError>(AgentError::InvalidRequest),
{
    check_passphrase(target)
}

/// Where a passphrase for an operation comes from.
pub enum PassphraseSource {
    Provided(String),
    /// Ask the credential store; a missing entry means the passphrase is required.
    Keychain,
}

/// A passphrase given with the request is used unless blank; otherwise the
/// credential store is asked when caching is allowed; otherwise one is required.
pub fn resolve_passphrase(config: &AgentConfig, provided: Option<String>) -> (r: Result<
    PassphraseSource,
    AgentError,
>)
    ensures
        match provided {
            Some(p) => if trim(p@).len() > 0 {
                r matches Ok(PassphraseSource::Provided(x)) && x == p
            } else {
                r == Err::<PassphraseSource, AgentError>(AgentError::InvalidRequest)
            },
            None => if config.remember_passphrase && !config.paranoid_mode {
                r matches Ok(PassphraseSource::Keychain)
            } else {
                r == Err::<PassphraseSource, AgentError>(AgentError::InvalidRequest)
            },
        },
{
    match provided {
        Some(p) => {
            if trim_chars(&chars_of(p.as_str())).len() == 0 {
                Err(AgentError::InvalidRequest)
            } else {
                Ok(PassphraseSource::Provided(p))
            }
        },
        None => if config.remember_passphrase && !config.paranoid_mode {
            Ok(PassphraseSource::Keychain)
        } else {
            Err(AgentError::InvalidRequest)
        },
    }
}

/// What the credential store gave: a missing entry means the passphrase is required.
pub fn cached_passphrase(found: Option<String>) -> (r: Result<String, AgentError>)
    ensures
        match found {
            Some(p) => r == Ok::<String, AgentError>(p),
            None => r == Err::<String, AgentError>(AgentError::InvalidRequest),
        },
{
    match found {
        Some(p) => Ok(p),
        None => Err(AgentError::InvalidRequest),
    }
}

/// A label change to write onto the medium's marker.
pub struct MarkerRelabel {
    pub mount_path: String,
    pub label: String,
}

/// The settings a configuration update carries.
pub struct ConfigUpdate {
    pub backup_sources: Vec<BackupSource>,
    pub include_patterns: Vec<String>,
    pub exclude_patterns: Vec<String>,
    pub retention: RetentionPolicy,
    pub quick_verify: bool,
    pub deep_verify: bool,
    pub auto_backup_on_insert: bool,
    pub remember_passphrase: bool,
    pub paranoid_mode: bool,
}

impl AgentConfig {
    /// Takes the settings of `u`, with source labels sanitized and paranoid mode
    /// forbidding passphrase caching. Returns whether cached passphrases must be
    /// deleted.
    pub fn apply_update(&mut self, u: ConfigUpdate) -> (r: bool)
        ensures
            r == u.paranoid_mode,
            sources_sanitized(u.backup_sources@, final(self).backup_sources@),
            final(self).include_patterns == u.include_patterns,
            final(self).exclude_patterns == u.exclude_patterns,
            final(self).retention == u.retention,
            final(self).quick_verify == u.quick_verify,
            final(self).deep_verify == u.deep_verify,
            final(self).auto_backup_on_insert == u.auto_backup_on_insert,
            final(self).remember_passphrase == (u.remember_passphrase && !u.paranoid_mode),
            final(self).paranoid_mode == u.paranoid_mode,
            final(self).trusted_drives == old(self).trusted_drives,
            final(self).restic_path == old(self).restic_path,
    {
        self.backup_sources = sanitize_sources(&u.backup_sources);
        self.include_patterns = u.include_patterns;
        self.exclude_patterns = u.exclude_patterns;
        self.retention = u.retention;
        self.quick_verify = u.quick_verify;
        self.deep_verify = u.deep_verify;
        self.auto_backup_on_insert = u.auto_backup_on_insert;
        self.remember_passphrase = u.remember_passphrase;
        self.paranoid_mode = u.paranoid_mode;
        self.enforce_security_invariants();
        self.paranoid_mode
    }
}

/// The record of a drive that was just set up.
pub open spec fn set_up_record(
    d: TrustedDrive,
    drive_id: Seq<char>,
    label: Seq<char>,
    repo_id: Seq<char>,
    sources: Option<Vec<BackupSource>>,
) -> bool {
    &&& d.drive_id@ == drive_id
    &&& opt_str(d.label) == Some(label)
    &&& d.repository_path@ == repo_rel()
    &&& opt_str(d.repository_id) == Some(repo_id)
    &&& d.last_seen_epoch is None
    &&& d.last_backup_epoch is None
    &&& d.last_backup_snapshot_id is None
    &&& d.backup_sources == sources
}

impl AgentRuntimeState {
    /// Whether an auto-backup should be tried for a drive that just became trusted:
    /// none is running for it, auto-backup is on, paranoid mode is off and
    /// passphrases may be cached.
    pub fn auto_backup_wanted(&self, drive_id: &str) -> (r: bool)
        ensures
            r == (!self.is_running(drive_id@) && self.config.auto_backup_on_insert
                && !self.config.paranoid_mode && self.config.remember_passphrase),
    {
        !self.is_backup_running(drive_id) && self.config.auto_backup_on_insert
            && !self.config.paranoid_mode && self.config.remember_passphrase
    }

    /// A manual backup of `drive_id` may start: none is running for it and it is trusted.
    pub fn check_backup_request(&self, drive_id: &str) -> (r: Result<(), AgentError>)
        ensures
            self.is_running(drive_id@) ==> r == Err::<(), AgentError>(AgentError::Conflict),
            !self.is_running(drive_id@) && !self.config.is_trusted(drive_id@) ==> r == Err::<
                (),
                AgentError,
            >(AgentError::NotFound),
            !self.is_running(drive_id@) && self.config.is_trusted(drive_id@) ==> r is Ok,
    {
        if self.is_backup_running(drive_id) {
            return Err(AgentError::Conflict);
        }
        proof {
            crate::config::lemma_find_drive(self.config.trusted_drives@, drive_id@);
        }
        match find_drive_index(&self.config.trusted_drives, drive_id) {
            Some(_) => Ok(()),
            None => Err(AgentError::NotFound),
        }
    }

    /// The mount path of `drive_id`, which must be the connected trusted drive.
    pub fn ensure_mounted_drive(&self, drive_id: &str) -> (r: Result<String, AgentError>)
        ensures
            (self.drive_status.connected && self.drive_status.trusted && opt_is(
                self.drive_status.drive_id,
                drive_id@,
            ) && self.drive_status.mount_path is Some) ==> r is Ok && r->Ok_0
                == self.drive_status.mount_path->0,
            !(self.drive_status.connected && self.drive_status.trusted && opt_is(
                self.drive_status.drive_id,
                drive_id@,
            ) && self.drive_status.mount_path is Some) ==> r == Err::<String, AgentError>(
                AgentError::NotConnected,
            ),
    {
        if !self.drive_status.connected || !self.drive_status.trusted {
            return Err(AgentError::NotConnected);
        }
        let same = match &self.drive_status.drive_id {
            Some(d) => str_eq(d.as_str(), drive_id),
            None => false,
        };
        if !same {
            return Err(AgentError::NotConnected);
        }
        match &self.drive_status.mount_path {
            Some(m) => Ok(m.clone()),
            None => Err(AgentError::NotConnected),
        }
    }

    /// Where the repository of the connected trusted drive `drive_id` is.
    pub fn repository_location(&self, drive_id: &str) -> (r: Result<String, AgentError>)
        ensures
            match find_drive(self.config.trusted_drives@, drive_id@) {
                None => r == Err::<String, AgentError>(AgentError::NotFound),
                Some(i) => (self.drive_status.connected && self.drive_status.trusted && opt_is(
                    self.drive_status.drive_id,
                    drive_id@,
                ) && self.drive_status.mount_path is Some) ==> r is Ok && r->Ok_0@ == join_path(
                    self.drive_status.mount_path->0@,
                    self.config.trusted_drives@[i].repository_path@,
                ),
            },
            r is Err ==> r == Err::<String, AgentError>(AgentError::NotFound) || r == Err::<
                String,
                AgentError,
            >(AgentError::NotConnected),
    {
        let i = match find_drive_index(&self.config.trusted_drives, drive_id) {
            Some(i) => i,
            None => return Err(AgentError::NotFound),
        };
        let mount = self.ensure_mounted_drive(drive_id)?;
        Ok(join_path_str(mount.as_str(), self.config.trusted_drives[i].repository_path.as_str()))
    }

    /// Records a drive that was just set up: its trust record, the passphrase policy,
    /// and a connected, trusted status. Returns whether the passphrase may be cached.
    pub fn complete_setup(
        &mut self,
        drive_id: &str,
        label: &str,
        repo_id: &str,
        sources: Option<Vec<BackupSource>>,
        mount_path: &str,
        devnode: Option<String>,
        remember_passphrase: bool,
        paranoid_mode: bool,
    ) -> (r: bool)
        requires
            old(self).wf(),
        ensures
            final(self).wf(),
            r == (remember_passphrase && !paranoid_mode),
            final(self).config.remember_passphrase == r,
            final(self).config.paranoid_mode == paranoid_mode,
            exists|d: TrustedDrive|
                set_up_record(d, drive_id@, label@, repo_id@, sources) && final(self).config.trusted_drives@ == upsert(old(self).config.trusted_drives@, d),
            final(self).drive_status.connected && final(self).drive_status.trusted,
            opt_is(final(self).drive_status.drive_id, drive_id@),
            opt_is(final(self).drive_status.label, label@),
            opt_is(final(self).drive_status.mount_path, mount_path@),
            final(self).drive_status.devnode == devnode,
            final(self).in_flight == old(self).in_flight,
            final(self).restore == old(self).restore,
            final(self).last_run == old(self).last_run,
    {
        self.config.remember_passphrase = remember_passphrase;
        self.config.paranoid_mode = paranoid_mode;
        self.config.enforce_security_invariants();
        let d = TrustedDrive {
            drive_id: copy_str(drive_id),
            label: Some(copy_str(label)),
            repository_path: copy_str(".aegis/repo"),
            repository_id: Some(copy_str(repo_id)),
            last_seen_epoch: None,
            last_backup_epoch: None,
            last_backup_snapshot_id: None,
            backup_sources: sources,
        };
        let ghost dd = d;
        self.config.trust_drive(d);
        assert(set_up_record(dd, drive_id@, label@, repo_id@, sources));
        self.drive_status = DriveStatus {
            connected: true,
            trusted: true,
            drive_id: Some(copy_str(drive_id)),
            label: Some(copy_str(label)),
            mount_path: Some(copy_str(mount_path)),
            devnode,
        };
        self.config.remember_passphrase
    }

    /// Forgets the trusted drive `drive_id` once `confirm_label`, trimmed, equals its
    /// label. With `wipe`, the drive must be the connected one; its device node is
    /// returned for the wipe.
    pub fn discontinue(&mut self, drive_id: &str, confirm_label: &str, wipe: bool) -> (r: Result<
        Option<String>,
        AgentError,
    >)
        requires
            old(self).wf(),
        ensures
            final(self).wf(),
            match find_drive(old(self).config.trusted_drives@, drive_id@) {
                None => r == Err::<Option<String>, AgentError>(AgentError::NotFound),
                Some(i) => {
                    let label = match old(self).config.trusted_drives@[i].label {
                        Some(l) => l@,
                        None => Seq::<char>::empty(),
                    };
                    if label.len() == 0 || trim(confirm_label@) != label {
                        r == Err::<Option<String>, AgentError>(AgentError::InvalidRequest)
                    } else if wipe && !(opt_is(old(self).drive_status.drive_id, drive_id@)
                        && old(self).drive_status.devnode is Some) {
                        r == Err::<Option<String>, AgentError>(AgentError::NotConnected)
                    } else {
                        &&& r is Ok
                        &&& final(self).config.trusted_drives@ == old(self).config.trusted_drives@.remove(i)
                        &&& wipe ==> r->Ok_0 == old(self).drive_status.devnode
                        &&& !wipe ==> r->Ok_0 is None
                    }
                },
            },
            r is Err ==> *final(self) == *old(self),
            final(self).config.same_settings(old(self).config),
            final(self).drive_status == old(self).drive_status,
            final(self).in_flight == old(self).in_flight,
            final(self).restore == old(self).restore,
            final(self).last_run == old(self).last_run,
    {
        let i = match find_drive_index(&self.config.trusted_drives, drive_id) {
            Some(i) => i,
            None => return Err(AgentError::NotFound),
        };
        let expected = match &self.config.trusted_drives[i].label {
            Some(l) => chars_of(l.as_str()),
            None => Vec::new(),
        };
        if expected.len() == 0 {
            return Err(AgentError::InvalidRequest);
        }
        let confirmed = trim_chars(&chars_of(confirm_label));
        if !crate::text::chars_eq(&confirmed, &expected) {
            return Err(AgentError::InvalidRequest);
        }
        let to_wipe = if wipe {
            let same = match &self.drive_status.drive_id {
                Some(d) => str_eq(d.as_str(), drive_id),
                None => false,
            };
            if !same || self.drive_status.devnode.is_none() {
                return Err(AgentError::NotConnected);
            }
            clone_opt(&self.drive_status.devnode)
        } else {
            None
        };
        self.config.remove_drive(drive_id);
        Ok(to_wipe)
    }

    /// No drive is connected any more.
    pub fn clear_drive_status(&mut self)
        ensures
            final(self).drive_status.is_cleared(),
            final(self).config == old(self).config,
            final(self).in_flight == old(self).in_flight,
            final(self).restore == old(self).restore,
            final(self).last_run == old(self).last_run,
    {
        self.drive_status = DriveStatus::disconnected();
    }

    /// Renames the trusted drive `drive_id` and/or replaces its own source list. A
    /// label that sanitizes to nothing is refused, and so is one another drive has.
    /// When the drive is the connected one and mounted, the returned relabel is to be
    /// written onto its marker.
    pub fn update_drive(
        &mut self,
        drive_id: &str,
        label: Option<&str>,
        sources: Option<Vec<BackupSource>>,
    ) -> (r: Result<Option<MarkerRelabel>, AgentError>)
        requires
            old(self).wf(),
        ensures
            final(self).wf(),
            final(self).config.same_settings(old(self).config),
            final(self).in_flight == old(self).in_flight,
            final(self).restore == old(self).restore,
            final(self).last_run == old(self).last_run,
            final(self).config.trusted_drives@.len() == old(self).config.trusted_drives@.len(),
            !old(self).config.is_trusted(drive_id@) ==> r == Err::<Option<MarkerRelabel>, AgentError>(
                AgentError::NotFound,
            ) && *final(self) == *old(self),
            old(self).config.is_trusted(drive_id@) && label is Some && sanitized(label->0@) is None
                ==> r == Err::<Option<MarkerRelabel>, AgentError>(AgentError::InvalidRequest)
                && *final(self) == *old(self),
            old(self).config.is_trusted(drive_id@) && label is Some && sanitized(label->0@) is Some
                && label_taken(
                old(self).config.trusted_drives@,
                sanitized(label->0@)->0,
                Some(drive_id@),
            ) ==> r == Err::<Option<MarkerRelabel>, AgentError>(AgentError::Conflict)
                && *final(self) == *old(self),
            old(self).config.is_trusted(drive_id@) && (label is None || (sanitized(label->0@) is Some
                && !label_taken(
                old(self).config.trusted_drives@,
                sanitized(label->0@)->0,
                Some(drive_id@),
            ))) ==> r is Ok,
            r is Ok ==> {
                let i = find_drive(old(self).config.trusted_drives@, drive_id@)->0;
                let o = old(self).config.trusted_drives@[i];
                let n = final(self).config.trusted_drives@[i];
                &&& old(self).config.is_trusted(drive_id@)
                &&& forall|j: int| #![trigger final(self).config.trusted_drives@[j]]
                    0 <= j < final(self).config.trusted_drives@.len() && j != i
                        ==> final(self).config.trusted_drives@[j] == old(self).config.trusted_drives@[j]
                &&& n.drive_id == o.drive_id
                &&& n.repository_path == o.repository_path
                &&& n.repository_id == o.repository_id
                &&& n.last_seen_epoch == o.last_seen_epoch
                &&& n.last_backup_epoch == o.last_backup_epoch
                &&& n.last_backup_snapshot_id == o.last_backup_snapshot_id
                &&& match label {
                    Some(l) => opt_str(n.label) == sanitized(l@),
                    None => n.label == o.label,
                }
                &&& match sources {
                    Some(v) => n.backup_sources is Some && sources_sanitized(
                        v@,
                        n.backup_sources->0@,
                    ),
                    None => n.backup_sources == o.backup_sources,
                }
                &&& (label is Some && opt_is(old(self).drive_status.drive_id, drive_id@)
                    && old(self).drive_status.mount_path is Some) ==> r->Ok_0 is Some
                    && r->Ok_0->0.mount_path == old(self).drive_status.mount_path->0
                    && Some(r->Ok_0->0.label@) == sanitized(label->0@)
                &&& !(label is Some && opt_is(old(self).drive_status.drive_id, drive_id@)
                    && old(self).drive_status.mount_path is Some) ==> r->Ok_0 is None
            },
    {
        proof {
            crate::config::lemma_find_drive(self.config.trusted_drives@, drive_id@);
        }
        let i = match find_drive_index(&self.config.trusted_drives, drive_id) {
            Some(i) => i,
            None => return Err(AgentError::NotFound),
        };
        let new_label = match label {
            Some(raw) => match sanitize_label(raw) {
                Some(l) => {
                    if self.config.label_exists(l.as_str(), Some(drive_id)) {
                        return Err(AgentError::Conflict);
                    }
                    Some(l)
                },
                None => return Err(AgentError::InvalidRequest),
            },
            None => None,
        };
        let mut d = self.config.trusted_drives.remove(i);
        let mut relabel: Option<MarkerRelabel> = None;
        if let Some(l) = new_label {
            let is_current = match &self.drive_status.drive_id {
                Some(c) => str_eq(c.as_str(), drive_id),
                None => false,
            };
            if is_current {
                self.drive_status.label = Some(copy_str(l.as_str()));
                if let Some(m) = &self.drive_status.mount_path {
                    relabel = Some(MarkerRelabel { mount_path: m.clone(), label: copy_str(l.as_str()) });
                }
            }
            d.label = Some(l);
        }
        if let Some(v) = sources {
            d.backup_sources = Some(sanitize_sources(&v));
        }
        self.config.trusted_drives.insert(i, d);
        proof {
            let ds = self.config.trusted_drives@;
            let o = old(self).config.trusted_drives@;
            assert forall|j: int| 0 <= j < ds.len() && j != i implies #[trigger] ds[j] == o[j] by {}
            assert forall|a: int, b: int|
                0 <= a < ds.len() && 0 <= b < ds.len() && a != b implies (#[trigger] ds[a]).drive_id@
                != (#[trigger] ds[b]).drive_id@ by {
                assert(ds[a].drive_id == o[a].drive_id);
                assert(ds[b].drive_id == o[b].drive_id);
            }
        }
        Ok(relabel)
    }
}

/// One trusted drive as the status shows it.
pub struct TrustedDriveSummary {
    pub drive_id: String,
    pub label: String,
    pub is_connected: bool,
    pub last_backup_epoch: Option<u64>,
    pub backup_source_labels: Vec<String>,
    pub backup_sources: Vec<BackupSource>,
}

/// The label a drive is shown under: its own, else `drive-` and the first eight
/// characters of its identity.
pub open spec fn shown_label(d: TrustedDrive) -> Seq<char> {
    match d.label {
        Some(l) => l@,
        None => "drive-"@ + prefix(d.drive_id@, 8),
    }
}

pub open spec fn summarizes(s: AgentRuntimeState, d: TrustedDrive, x: TrustedDriveSummary) -> bool {
    &&& x.drive_id@ == d.drive_id@
    &&& x.label@ == shown_label(d)
    &&& x.is_connected == (s.drive_status.connected && opt_is(s.drive_status.drive_id, d.drive_id@))
    &&& x.last_backup_epoch == d.last_backup_epoch
    &&& x.backup_sources@ == s.config.sources_for(d.drive_id@)
    &&& x.backup_source_labels@.len() == x.backup_sources@.len()
    &&& forall|k: int|
        0 <= k < x.backup_sources@.len() ==> (#[trigger] x.backup_source_labels@[k])@
            == x.backup_sources@[k].label@
}

fn labels_of(v: &Vec<BackupSource>) -> (r: Vec<String>)
    ensures
        r@.len() == v@.len(),
        forall|k: int| 0 <= k < v@.len() ==> (#[trigger] r@[k])@ == v@[k].label@,
{
    let mut r: Vec<String> = Vec::new();
    let mut i: usize = 0;
    while i < v.len()
        invariant
            i <= v.len(),
            r@.len() == i,
            forall|k: int| 0 <= k < i ==> (#[trigger] r@[k])@ == v@[k].label@,
        decreases v.len() - i,
    {
        r.push(copy_str(v[i].label.as_str()));
        i += 1;
    }
    r
}

impl AgentRuntimeState {
    /// Every trusted drive, in order, as the status shows it.
    pub fn trusted_drive_summaries(&self) -> (r: Vec<TrustedDriveSummary>)
        ensures
            r@.len() == self.config.trusted_drives@.len(),
            forall|i: int|
                0 <= i < r@.len() ==> summarizes(*self, self.config.trusted_drives@[i], #[trigger] r@[i]),
    {
        let mut r: Vec<TrustedDriveSummary> = Vec::new();
        let mut i: usize = 0;
        while i < self.config.trusted_drives.len()
            invariant
                i <= self.config.trusted_drives.len(),
                r@.len() == i,
                forall|k: int|
                    0 <= k < i ==> summarizes(*self, self.config.trusted_drives@[k], #[trigger] r@[k]),
            decreases self.config.trusted_drives.len() - i,
        {
            let d = &self.config.trusted_drives[i];
            let label = match &d.label {
                Some(l) => copy_str(l.as_str()),
                None => {
                    let head = string_of(&prefix_chars(&chars_of(d.drive_id.as_str()), 8));
                    concat2("drive-", head.as_str())
                },
            };
            let is_connected = self.drive_status.connected && match &self.drive_status.drive_id {
                Some(c) => str_eq(c.as_str(), d.drive_id.as_str()),
                None => false,
            };
            let sources = self.config.backup_sources_for_drive(d.drive_id.as_str());
            let labels = labels_of(&sources);
            r.push(TrustedDriveSummary {
                drive_id: copy_str(d.drive_id.as_str()),
                label,
                is_connected,
                last_backup_epoch: d.last_backup_epoch,
                backup_source_labels: labels,
                backup_sources: sources,
            });
            i += 1;
        }
        r
    }
}

} // verus!
