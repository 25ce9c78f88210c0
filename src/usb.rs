//! The drive watcher's decisions: reading the mount table, recognising USB
//! block devices from their udev properties, and the runtime-state transitions
//! on hotplug add and remove.
use vstd::prelude::*;
use crate::config::{clone_opt, now_epoch, seen_at};
use crate::drive::DriveMarker;
use crate::errors::AgentError;
use crate::state::{failed_run, opt_is, run_failed, without_flight, AgentRuntimeState, DriveStatus};
use crate::text::{chars_of, copy_str, is_whitespace, is_ws, str_eq, string_of};

verus! {

/// Watches hotplug events through udev.
pub struct LinuxWatcher;

/// Watches nothing, where udev is not available.
pub struct StubWatcher;

/// The hotplug watcher in use.
pub enum UsbWatcher {
    Linux(LinuxWatcher),
    Stub(StubWatcher),
}

impl LinuxWatcher {
    pub fn new() -> (r: Result<LinuxWatcher, AgentError>)
        ensures
            r is Ok,
    {
        Ok(LinuxWatcher)
    }
}

/// The watcher for this system: udev's.
pub fn build_watcher() -> (r: Result<UsbWatcher, AgentError>)
    ensures
        r matches Ok(UsbWatcher::Linux(_)),
{
    let w = LinuxWatcher::new()?;
    Ok(UsbWatcher::Linux(w))
}

/// One line of the mount table: the device and where it is mounted.
pub struct MountEntry {
    pub device: String,
    pub mount_path: String,
}

/// The escape that `/proc/mounts` writes for `c`, if any: a backslash and three
/// octal digits.
pub open spec fn escaped(code: Seq<char>) -> Option<char> {
    if code == "040"@ {
        Some(' ')
    } else if code == "011"@ {
        Some('\t')
    } else if code == "012"@ {
        Some('\n')
    } else if code == "134"@ {
        Some('\\')
    } else {
        None
    }
}

/// `s` with the mount table's octal escapes of space, tab, newline and backslash
/// decoded.
pub open spec fn unescape(s: Seq<char>) -> Seq<char>
    decreases s.len(),
{
    if s.len() == 0 {
        s
    } else if s.len() >= 4 && s[0] == '\\' && escaped(s.subrange(1, 4)) is Some {
        seq![escaped(s.subrange(1, 4))->0] + unescape(s.skip(4))
    } else {
        seq![s[0]] + unescape(s.skip(1))
    }
}

fn escape_at(cs: &Vec<char>, i: usize) -> (r: Option<char>)
    requires
        i + 4 <= cs.len(),
    ensures
        r == escaped(cs@.subrange(i as int + 1, i as int + 4)),
{
    let a = cs[i + 1];
    let b = cs[i + 2];
    let c = cs[i + 3];
    let ghost code = cs@.subrange(i as int + 1, i as int + 4);
    proof {
        reveal_strlit("040");
        reveal_strlit("011");
        reveal_strlit("012");
        reveal_strlit("134");
        assert(code =~= seq![a, b, c]);
    }
    if a == '0' && b == '4' && c == '0' {
        assert(code =~= "040"@);
        Some(' ')
    } else if a == '0' && b == '1' && c == '1' {
        assert(code =~= "011"@);
        Some('\t')
    } else if a == '0' && b == '1' && c == '2' {
        assert(code =~= "012"@);
        Some('\n')
    } else if a == '1' && b == '3' && c == '4' {
        assert(code =~= "134"@);
        Some('\\')
    } else {
        assert(code != "040"@ && code != "011"@ && code != "012"@ && code != "134"@) by {
            if code == "040"@ {
                assert(code[0] == '0' && code[1] == '4' && code[2] == '0');
            }
            if code == "011"@ {
                assert(code[0] == '0' && code[1] == '1' && code[2] == '1');
            }
            if code == "012"@ {
                assert(code[0] == '0' && code[1] == '1' && code[2] == '2');
            }
            if code == "134"@ {
                assert(code[0] == '1' && code[1] == '3' && code[2] == '4');
            }
        }
        None
    }
}

/// Decodes the octal escapes of a mount-table field.
pub fn unescape_mount(input: &str) -> (r: String)
    ensures
        r@ == unescape(input@),
{
    let cs = chars_of(input);
    let mut out: Vec<char> = Vec::new();
    let mut i: usize = 0;
    assert(out@ + unescape(cs@.skip(0)) =~= unescape(cs@)) by {
        assert(cs@.skip(0) =~= cs@);
    }
    while i < cs.len()
        invariant
            i <= cs.len(),
            out@ + unescape(cs@.skip(i as int)) == unescape(cs@),
        decreases cs.len() - i,
    {
        let ghost rest = cs@.skip(i as int);
        let e = if cs.len() - i >= 4 && cs[i] == '\\' {
            escape_at(&cs, i)
        } else {
            None
        };
        match e {
            Some(c) => {
                proof {
                    assert(rest.subrange(1, 4) =~= cs@.subrange(i as int + 1, i as int + 4));
                    assert(rest.skip(4) =~= cs@.skip(i as int + 4));
                    assert(out@.push(c) + unescape(rest.skip(4)) =~= out@ + unescape(rest));
                }
                out.push(c);
                i += 4;
            },
            None => {
                proof {
                    if rest.len() >= 4 && rest[0] == '\\' {
                        assert(rest.subrange(1, 4) =~= cs@.subrange(i as int + 1, i as int + 4));
                    }
                    assert(rest.skip(1) =~= cs@.skip(i as int + 1));
                    assert(out@.push(cs@[i as int]) + unescape(rest.skip(1)) =~= out@ + unescape(
                        rest,
                    ));
                }
                out.push(cs[i]);
                i += 1;
            },
        }
    }
    assert(cs@.skip(cs.len() as int) =~= Seq::<char>::empty());
    assert(out@ + Seq::<char>::empty() =~= out@);
    string_of(&out)
}

/// Scanning state of the mount table: the entries so far, the words of the
/// current line, and the word being read.
pub struct MountScan {
    pub entries: Seq<(Seq<char>, Seq<char>)>,
    pub words: Seq<Seq<char>>,
    pub word: Seq<char>,
}

/// The words of a line once its last word is closed.
pub open spec fn close_word(words: Seq<Seq<char>>, word: Seq<char>) -> Seq<Seq<char>> {
    if word.len() > 0 {
        words.push(word)
    } else {
        words
    }
}

/// The entries once a line ends: a line of at least two words gives the device
/// and the decoded mount path.
pub open spec fn close_line(st: MountScan) -> Seq<(Seq<char>, Seq<char>)> {
    let ws = close_word(st.words, st.word);
    if ws.len() >= 2 {
        st.entries.push((ws[0], unescape(ws[1])))
    } else {
        st.entries
    }
}

pub open spec fn scan_step(st: MountScan, c: char) -> MountScan {
    if c == '\n' {
        MountScan { entries: close_line(st), words: seq![], word: seq![] }
    } else if is_ws(c) {
        MountScan { entries: st.entries, words: close_word(st.words, st.word), word: seq![] }
    } else {
        MountScan { entries: st.entries, words: st.words, word: st.word.push(c) }
    }
}

pub open spec fn scan(s: Seq<char>) -> MountScan
    decreases s.len(),
{
    if s.len() == 0 {
        MountScan { entries: seq![], words: seq![], word: seq![] }
    } else {
        scan_step(scan(s.drop_last()), s.last())
    }
}

/// The mount table's entries: for each line of at least two whitespace-separated
/// fields, the first field and the decoded second one.
pub open spec fn mount_entries(s: Seq<char>) -> Seq<(Seq<char>, Seq<char>)> {
    close_line(scan(s))
}

pub open spec fn entry_view(e: MountEntry) -> (Seq<char>, Seq<char>) {
    (e.device@, e.mount_path@)
}

/// Closes the current line into `entries`.
fn end_line(entries: &mut Vec<MountEntry>, words: &mut Vec<Vec<char>>, word: &mut Vec<char>)
    ensures
        final(entries)@.map_values(|e: MountEntry| entry_view(e)) == close_line(
            MountScan {
                entries: old(entries)@.map_values(|e: MountEntry| entry_view(e)),
                words: old(words)@.map_values(|w: Vec<char>| w@),
                word: old(word)@,
            },
        ),
        final(words)@.len() == 0,
        final(word)@.len() == 0,
{
    let ghost e0 = entries@.map_values(|e: MountEntry| entry_view(e));
    let ghost st = MountScan {
        entries: e0,
        words: words@.map_values(|w: Vec<char>| w@),
        word: word@,
    };
    end_word(words, word);
    if words.len() >= 2 {
        let device = string_of(&words[0]);
        let raw = string_of(&words[1]);
        let mount_path = unescape_mount(raw.as_str());
        entries.push(MountEntry { device, mount_path });
        assert(entries@.map_values(|e: MountEntry| entry_view(e)) =~= close_line(st));
    } else {
        assert(entries@.map_values(|e: MountEntry| entry_view(e)) =~= close_line(st));
    }
    *words = Vec::new();
}

/// Closes the current word into `words`.
fn end_word(words: &mut Vec<Vec<char>>, word: &mut Vec<char>)
    ensures
        final(words)@.map_values(|w: Vec<char>| w@) == close_word(
            old(words)@.map_values(|w: Vec<char>| w@),
            old(word)@,
        ),
        final(word)@.len() == 0,
{
    let ghost w0 = words@.map_values(|w: Vec<char>| w@);
    if word.len() > 0 {
        let w = word.clone();
        assert(w@ =~= word@);
        words.push(w);
        *word = Vec::new();
        assert(words@.map_values(|w: Vec<char>| w@) =~= close_word(w0, old(word)@));
    } else {
        assert(words@.map_values(|w: Vec<char>| w@) =~= close_word(w0, old(word)@));
    }
}

/// Parses the text of the mount table.
pub fn parse_mount_table(content: &str) -> (r: Vec<MountEntry>)
    ensures
        r@.map_values(|e: MountEntry| entry_view(e)) == mount_entries(content@),
{
    let cs = chars_of(content);
    let mut entries: Vec<MountEntry> = Vec::new();
    let mut words: Vec<Vec<char>> = Vec::new();
    let mut word: Vec<char> = Vec::new();
    let mut i: usize = 0;
    assert(scan(cs@.take(0)) == (MountScan {
        entries: entries@.map_values(|e: MountEntry| entry_view(e)),
        words: words@.map_values(|w: Vec<char>| w@),
        word: word@,
    })) by {
        assert(cs@.take(0) =~= Seq::<char>::empty());
        assert(entries@.map_values(|e: MountEntry| entry_view(e)) =~= Seq::empty());
        assert(words@.map_values(|w: Vec<char>| w@) =~= Seq::empty());
        assert(word@ =~= Seq::<char>::empty());
    }
    while i < cs.len()
        invariant
            i <= cs.len(),
            scan(cs@.take(i as int)) == (MountScan {
                entries: entries@.map_values(|e: MountEntry| entry_view(e)),
                words: words@.map_values(|w: Vec<char>| w@),
                word: word@,
            }),
        decreases cs.len() - i,
    {
        let c = cs[i];
        proof {
            assert(cs@.take(i as int + 1).drop_last() =~= cs@.take(i as int));
        }
        if c == '\n' {
            end_line(&mut entries, &mut words, &mut word);
            assert(words@.map_values(|w: Vec<char>| w@) =~= Seq::<Seq<char>>::empty());
            assert(word@ =~= Seq::<char>::empty());
        } else if is_whitespace(c) {
            end_word(&mut words, &mut word);
            assert(word@ =~= Seq::<char>::empty());
        } else {
            word.push(c);
        }
        i += 1;
    }
    assert(cs@.take(cs.len() as int) =~= cs@);
    end_line(&mut entries, &mut words, &mut word);
    entries
}

/// The device mounted at `mount`, from the first entry that names it.
pub open spec fn device_for_mount(t: Seq<MountEntry>, mount: Seq<char>) -> Option<Seq<char>>
    decreases t.len(),
{
    if t.len() == 0 {
        None
    } else if t[0].mount_path@ == mount {
        Some(t[0].device@)
    } else {
        device_for_mount(t.drop_first(), mount)
    }
}

/// The device mounted at `mount` according to `table`.
pub fn resolve_device_for_mount(table: &Vec<MountEntry>, mount: &str) -> (r: Option<String>)
    ensures
        match r {
            Some(d) => device_for_mount(table@, mount@) == Some(d@),
            None => device_for_mount(table@, mount@) is None,
        },
{
    let mut i: usize = 0;
    assert(table@.skip(0) =~= table@);
    while i < table.len()
        invariant
            i <= table.len(),
            device_for_mount(table@, mount@) == device_for_mount(table@.skip(i as int), mount@),
        decreases table.len() - i,
    {
        assert(table@.skip(i as int).drop_first() =~= table@.skip(i as int + 1));
        if str_eq(table[i].mount_path.as_str(), mount) {
            return Some(copy_str(table[i].device.as_str()));
        }
        i += 1;
    }
    None
}

/// The udev facts about one device that the USB test reads.
pub struct UdevProps {
    /// The `ID_BUS` property.
    pub id_bus: Option<String>,
    /// The `removable` sysfs attribute.
    pub removable: Option<String>,
    /// The `ID_DRIVE_THUMB` property.
    pub drive_thumb: Option<String>,
    /// The `ID_DRIVE_FLASH_SD` property.
    pub drive_flash_sd: Option<String>,
    /// The `ID_DRIVE_FLASH` property.
    pub drive_flash: Option<String>,
}

pub open spec fn is_one(o: Option<String>) -> bool {
    opt_is(o, "1"@)
}

pub open spec fn on_usb_bus(p: UdevProps) -> bool {
    opt_is(p.id_bus, "usb"@)
}

pub open spec fn removable_props(p: UdevProps) -> bool {
    is_one(p.removable) || is_one(p.drive_thumb) || is_one(p.drive_flash_sd) || is_one(
        p.drive_flash,
    )
}

fn opt_eq(o: &Option<String>, v: &str) -> (r: bool)
    ensures
        r == opt_is(*o, v@),
{
    match o {
        Some(s) => str_eq(s.as_str(), v),
        None => false,
    }
}

/// The device is marked removable, or as a thumb drive or flash card.
pub fn is_removable_device(p: &UdevProps) -> (r: bool)
    ensures
        r == removable_props(*p),
{
    opt_eq(&p.removable, "1") || opt_eq(&p.drive_thumb, "1") || opt_eq(&p.drive_flash_sd, "1")
        || opt_eq(&p.drive_flash, "1")
}

/// `chain` is a device followed by its ancestors. The device counts as USB when
/// it or an ancestor is on the USB bus or removable.
pub fn is_usb_device(chain: &Vec<UdevProps>) -> (r: bool)
    ensures
        r == exists|i: int|
            0 <= i < chain@.len() && (on_usb_bus(#[trigger] chain@[i]) || removable_props(
                chain@[i],
            )),
{
    let mut i: usize = 0;
    while i < chain.len()
        invariant
            i <= chain.len(),
            forall|j: int|
                0 <= j < i ==> !(on_usb_bus(#[trigger] chain@[j]) || removable_props(chain@[j])),
        decreases chain.len() - i,
    {
        if opt_eq(&chain[i].id_bus, "usb") || is_removable_device(&chain[i]) {
            return true;
        }
        i += 1;
    }
    false
}

/// `chain` is a device followed by its ancestors; true when one is on the USB bus.
pub fn is_usb_devnode(chain: &Vec<UdevProps>) -> (r: bool)
    ensures
        r == exists|i: int| 0 <= i < chain@.len() && on_usb_bus(#[trigger] chain@[i]),
{
    let mut i: usize = 0;
    while i < chain.len()
        invariant
            i <= chain.len(),
            forall|j: int| 0 <= j < i ==> !on_usb_bus(#[trigger] chain@[j]),
        decreases chain.len() - i,
    {
        if opt_eq(&chain[i].id_bus, "usb") {
            return true;
        }
        i += 1;
    }
    false
}

/// Only whole disks and partitions are watched.
pub fn is_watched_devtype(devtype: &str) -> (r: bool)
    ensures
        r == (devtype@ == "disk"@ || devtype@ == "partition"@),
{
    str_eq(devtype, "disk") || str_eq(devtype, "partition")
}

/// What a hotplug add led to.
#[derive(Debug, Clone, Copy, PartialEq, Eq, Structural)]
pub enum DriveArrival {
    /// The device did not get mounted.
    Unmounted,
    /// Mounted, without a marker.
    Unknown,
    /// Mounted, with a marker whose identity is not trusted.
    Untrusted,
    /// Mounted, with a trusted identity; its last-seen time was updated.
    Trusted,
}

impl AgentRuntimeState {
    /// The device `devnode` appeared: `mount` is where it got mounted, if it did, and
    /// `marker` the marker read from there, if any.
    pub fn handle_added(
        &mut self,
        devnode: &str,
        mount: Option<String>,
        marker: Option<DriveMarker>,
    ) -> (r: DriveArrival)
        requires
            old(self).wf(),
        ensures
            final(self).wf(),
            final(self).drive_status.connected,
            opt_is(final(self).drive_status.devnode, devnode@),
            final(self).in_flight == old(self).in_flight,
            final(self).restore == old(self).restore,
            final(self).last_run == old(self).last_run,
            mount is None ==> r == DriveArrival::Unmounted && final(self).config == old(self).config
                && !final(self).drive_status.trusted && final(self).drive_status.drive_id is None
                && final(self).drive_status.label is None
                && final(self).drive_status.mount_path is None,
            mount is Some && marker is None ==> r == DriveArrival::Unknown && final(self).config
                == old(self).config && !final(self).drive_status.trusted
                && final(self).drive_status.drive_id is None
                && final(self).drive_status.label is None
                && final(self).drive_status.mount_path == mount,
            mount is Some && marker is Some ==> {
                let m = marker->0;
                &&& final(self).drive_status.trusted == old(self).config.is_trusted(m.drive_id@)
                &&& opt_is(final(self).drive_status.drive_id, m.drive_id@)
                &&& final(self).drive_status.label == m.label
                &&& final(self).drive_status.mount_path == mount
                &&& (r == DriveArrival::Trusted) == old(self).config.is_trusted(m.drive_id@)
                &&& r == DriveArrival::Trusted || r == DriveArrival::Untrusted
                &&& r == DriveArrival::Untrusted ==> final(self).config == old(self).config
                &&& r == DriveArrival::Trusted ==> final(self).config.same_settings(old(self).config)
                    && exists|e: u64|
                    #[trigger] seen_at(old(self).config.trusted_drives@, m.drive_id@, e)
                        == final(self).config.trusted_drives@
            },
    {
        match mount {
            None => {
                self.drive_status = DriveStatus {
                    connected: true,
                    trusted: false,
                    drive_id: None,
                    label: None,
                    mount_path: None,
                    devnode: Some(copy_str(devnode)),
                };
                DriveArrival::Unmounted
            },
            Some(mount_path) => match marker {
                None => {
                    self.drive_status = DriveStatus {
                        connected: true,
                        trusted: false,
                        drive_id: None,
                        label: None,
                        mount_path: Some(mount_path),
                        devnode: Some(copy_str(devnode)),
                    };
                    DriveArrival::Unknown
                },
                Some(m) => {
                    let trusted = crate::config::find_drive_index(
                        &self.config.trusted_drives,
                        m.drive_id.as_str(),
                    ).is_some();
                    proof {
                        crate::config::lemma_find_drive(self.config.trusted_drives@, m.drive_id@);
                    }
                    let id = m.drive_id;
                    self.drive_status = DriveStatus {
                        connected: true,
                        trusted,
                        drive_id: Some(copy_str(id.as_str())),
                        label: m.label,
                        mount_path: Some(mount_path),
                        devnode: Some(copy_str(devnode)),
                    };
                    if trusted {
                        let ghost before = self.config.trusted_drives@;
                        self.config.update_last_seen(id.as_str());
                        proof {
                            let e = choose|e: u64|
                                self.config.trusted_drives@ == seen_at(before, id@, e);
                            crate::config::lemma_seen_keeps_ids(before, id@, e);
                            assert(seen_at(before, id@, e) == self.config.trusted_drives@);
                        }
                        DriveArrival::Trusted
                    } else {
                        DriveArrival::Untrusted
                    }
                },
            },
        }
    }

    /// The device `devnode` went away. `mounted_device` is what the mount table now
    /// shows at the recorded mount path. Returns false when another device went away.
    pub fn handle_removed(&mut self, devnode: &str, mounted_device: Option<String>) -> (r: bool)
        requires
            old(self).wf(),
        ensures
            final(self).wf(),
            exists|now: u64| removed_at(*old(self), *final(self), devnode@, mounted_device, now, r),
    {
        let now = now_epoch();
        self.handle_removed_at(devnode, mounted_device, now)
    }

    /// As `handle_removed`, at time `now`.
    pub fn handle_removed_at(&mut self, devnode: &str, mounted_device: Option<String>, now: u64) -> (r:
        bool)
        requires
            old(self).wf(),
        ensures
            final(self).wf(),
            removed_at(*old(self), *final(self), devnode@, mounted_device, now, r),
    {
        if self.drive_status.mount_path.is_some() {
            if let Some(dev) = &mounted_device {
                if !str_eq(dev.as_str(), devnode) {
                    return false;
                }
            }
        }
        let was = clone_opt(&self.drive_status.drive_id);
        self.drive_status = DriveStatus::disconnected();
        if let Some(id) = was {
            let ghost before = *self;
            let running = self.is_backup_running(id.as_str());
            if let Some(cancel) = self.finish_backup(id.as_str()) {
                cancel.cancel();
            }
            let restoring = match &self.restore {
                Some(x) => str_eq(x.drive_id.as_str(), id.as_str()),
                None => false,
            };
            if restoring {
                if let Some(x) = self.restore.take() {
                    x.cancel.cancel();
                }
            }
            if running {
                self.last_run = Some(failed_run(now, now, true));
            }
            assert(self.in_flight@ == without_flight(before.in_flight@, id@));
        }
        true
    }
}

/// The transition on removal of `devnode` at time `now`: ignored when the recorded
/// mount path now belongs to another device; otherwise the status is cleared, and
/// for the drive that was connected its backup handle and progress are dropped, its
/// restore slot released, and a backup that was in flight is recorded as failed and
/// interrupted.
pub open spec fn removed_at(
    s: AgentRuntimeState,
    t: AgentRuntimeState,
    devnode: Seq<char>,
    mounted_device: Option<String>,
    now: u64,
    handled: bool,
) -> bool {
    let other = s.drive_status.mount_path is Some && mounted_device is Some && !opt_is(
        mounted_device,
        devnode,
    );
    if other {
        !handled && t == s
    } else {
        &&& handled
        &&& t.drive_status.is_cleared()
        &&& t.config == s.config
        &&& match s.drive_status.drive_id {
            None => t.in_flight == s.in_flight && t.restore == s.restore && t.last_run
                == s.last_run,
            Some(id) => {
                &&& t.in_flight@ == without_flight(s.in_flight@, id@)
                &&& !t.is_running(id@)
                &&& (s.restore is Some && s.restore->0.drive_id@ == id@) ==> t.restore is None
                &&& !(s.restore is Some && s.restore->0.drive_id@ == id@) ==> t.restore
                    == s.restore
                &&& s.is_running(id@) ==> t.last_run is Some && run_failed(
                    t.last_run->0,
                    now,
                    now,
                    true,
                )
                &&& !s.is_running(id@) ==> t.last_run == s.last_run
            },
        }
    }
}

/// A disconnect during an in-flight backup fails that drive's run as interrupted and
/// leaves it no progress entry and no cancellation handle.
pub proof fn lemma_disconnect_interrupts_backup(
    s: AgentRuntimeState,
    t: AgentRuntimeState,
    devnode: Seq<char>,
    mounted_device: Option<String>,
    now: u64,
    id: Seq<char>,
)
    requires
        removed_at(s, t, devnode, mounted_device, now, true),
        opt_is(s.drive_status.drive_id, id),
        s.is_running(id),
    ensures
        t.last_run matches Some(r) && r.status == crate::state::RunStatus::Failed && r.interrupted,
        !t.is_running(id),
        forall|i: int| 0 <= i < t.in_flight@.len() ==> (#[trigger] t.in_flight@[i]).drive_id@ != id,
{
}

} // verus!
