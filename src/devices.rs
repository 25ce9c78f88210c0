//! The device scanner's logic: classifying block devices from the listing tool's
//! output, finding mount points, and the retry decisions around mounting,
//! unmounting and formatting.
use vstd::prelude::*;
use crate::config::clone_opt;
use crate::errors::AgentError;
use crate::restic::views;
use crate::rng::random_u32;
use crate::state::opt_is;
use crate::text::{
    chars_of, concat2, contains, copy_str, hex_fixed, is_whitespace, is_ws, lower_of, push_hex_fixed,
    str_contains, str_eq, to_lower,
};

verus! {

/// One block device as the listing tool reports it; partitions and holders nest
/// under `children`.
pub struct LsblkDevice {
    pub name: Option<String>,
    pub path: Option<String>,
    pub size: Option<String>,
    pub model: Option<String>,
    pub rm: Option<bool>,
    pub tran: Option<String>,
    pub hotplug: Option<bool>,
    pub devtype: Option<String>,
    pub fstype: Option<String>,
    pub mountpoints: Option<Vec<Option<String>>>,
    pub children: Option<Vec<LsblkDevice>>,
}

pub struct PartitionInfo {
    pub path: String,
    pub name: String,
    pub size: String,
    pub fstype: Option<String>,
    pub mountpoints: Vec<String>,
}

pub struct DeviceInfo {
    pub path: String,
    pub name: String,
    pub size: String,
    pub model: Option<String>,
    pub removable: bool,
    pub partitions: Vec<PartitionInfo>,
}

/// The mount points that are given and not empty, in order.
pub open spec fn present_mounts(raw: Seq<Option<String>>) -> Seq<Seq<char>>
    decreases raw.len(),
{
    if raw.len() == 0 {
        seq![]
    } else {
        let rest = present_mounts(raw.drop_last());
        match raw.last() {
            Some(m) => if m@.len() > 0 {
                rest.push(m@)
            } else {
                rest
            },
            None => rest,
        }
    }
}

pub open spec fn normalized(raw: Option<Vec<Option<String>>>) -> Seq<Seq<char>> {
    match raw {
        Some(v) => present_mounts(v@),
        None => seq![],
    }
}

pub fn normalize_mountpoints(raw: &Option<Vec<Option<String>>>) -> (r: Vec<String>)
    ensures
        views(r@) == normalized(*raw),
{
    let mut r: Vec<String> = Vec::new();
    match raw {
        None => {
            assert(views(r@) =~= normalized(*raw));
        },
        Some(v) => {
            let mut i: usize = 0;
            while i < v.len()
                invariant
                    i <= v.len(),
                    views(r@) == present_mounts(v@.take(i as int)),
                decreases v.len() - i,
            {
                let ghost before = views(r@);
                assert(v@.take(i as int + 1).drop_last() =~= v@.take(i as int));
                match &v[i] {
                    Some(m) => {
                        if chars_of(m.as_str()).len() > 0 {
                            r.push(copy_str(m.as_str()));
                            assert(views(r@) =~= before.push(m@));
                        }
                    },
                    None => {},
                }
                i += 1;
            }
            assert(v@.take(v.len() as int) =~= v@);
        },
    }
    r
}

pub open spec fn first_mount(raw: Option<Vec<Option<String>>>) -> Option<Seq<char>> {
    if normalized(raw).len() > 0 {
        Some(normalized(raw)[0])
    } else {
        None
    }
}

pub open spec fn children_of(d: LsblkDevice) -> Seq<LsblkDevice> {
    match d.children {
        Some(v) => v@,
        None => seq![],
    }
}

/// Searching a list of devices, depth first, for the node `dev`: `Some` of its first
/// mount point (or of nothing, when it is not mounted) once found.
pub open spec fn mount_in_forest(fs: Seq<LsblkDevice>, dev: Seq<char>) -> Option<Option<Seq<char>>>
    decreases fs,
    via forest_decreases
{
    if fs.len() == 0 {
        None
    } else if opt_is(fs[0].path, dev) {
        Some(first_mount(fs[0].mountpoints))
    } else {
        match mount_in_forest(children_of(fs[0]), dev) {
            Some(x) => Some(x),
            None => mount_in_forest(fs.drop_first(), dev),
        }
    }
}

#[via_fn]
proof fn forest_decreases(fs: Seq<LsblkDevice>, dev: Seq<char>) {
    if fs.len() > 0 {
        assert(decreases_to!(fs => fs[0]));
        let d = fs[0];
        if let Some(v) = d.children {
            assert(decreases_to!(d => d.children));
            assert(decreases_to!(d.children => v));
            assert(decreases_to!(v => v@));
            assert(decreases_to!(fs => children_of(fs[0])));
        } else {
            assert(decreases_to!(fs => fs.subrange(0, 0)));
            assert(children_of(fs[0]) =~= fs.subrange(0, 0));
        }
        assert(decreases_to!(fs => fs.subrange(1, fs.len() as int)));
        assert(fs.drop_first() == fs.subrange(1, fs.len() as int));
    }
}

/// Searching `d` and what nests under it for the node `dev`.
pub open spec fn mount_in(d: LsblkDevice, dev: Seq<char>) -> Option<Option<Seq<char>>> {
    mount_in_forest(seq![d], dev)
}

pub open spec fn opt_opt_view(o: Option<Option<String>>) -> Option<Option<Seq<char>>> {
    match o {
        Some(Some(s)) => Some(Some(s@)),
        Some(None) => Some(None),
        None => None,
    }
}

fn first_mountpoint(raw: &Option<Vec<Option<String>>>) -> (r: Option<String>)
    ensures
        crate::config::opt_str(r) == first_mount(*raw),
{
    let ms = normalize_mountpoints(raw);
    if ms.len() > 0 {
        Some(copy_str(ms[0].as_str()))
    } else {
        None
    }
}

fn find_in_forest(fs: &Vec<LsblkDevice>, devnode: &str) -> (r: Option<Option<String>>)
    ensures
        opt_opt_view(r) == mount_in_forest(fs@, devnode@),
    decreases fs@,
{
    let mut i: usize = 0;
    assert(fs@.skip(0) =~= fs@);
    while i < fs.len()
        invariant
            i <= fs.len(),
            mount_in_forest(fs@, devnode@) == mount_in_forest(fs@.skip(i as int), devnode@),
        decreases fs.len() - i,
    {
        let d = &fs[i];
        let ghost t = fs@.skip(i as int);
        assert(t[0] == fs@[i as int]);
        assert(t.drop_first() =~= fs@.skip(i as int + 1));
        let here = match &d.path {
            Some(p) => str_eq(p.as_str(), devnode),
            None => false,
        };
        if here {
            return Some(first_mountpoint(&d.mountpoints));
        }
        if d.children.is_none() {
            assert(children_of(fs@[i as int]) =~= Seq::<LsblkDevice>::empty());
            assert(mount_in_forest(Seq::<LsblkDevice>::empty(), devnode@) is None);
        }
        if let Some(cs) = &d.children {
            proof {
                assert(decreases_to!(fs@ => fs@[i as int]));
                assert(decreases_to!(fs@[i as int] => fs@[i as int].children));
                assert(decreases_to!(fs@[i as int].children => fs@[i as int].children->0));
                assert(decreases_to!(*cs => cs@));
                assert(decreases_to!(fs@ => cs@));
            }
            let x = find_in_forest(cs, devnode);
            if x.is_some() {
                return x;
            }
            assert(children_of(fs@[i as int]) == cs@);
        }
        i += 1;
    }
    None
}

/// Looks for the node `devnode` in `device` and what nests under it: `Some` of its
/// first mount point, or `Some(None)` when it is not mounted; `None` when absent.
pub fn find_mount_in_device(device: &LsblkDevice, devnode: &str) -> (r: Option<Option<String>>)
    ensures
        opt_opt_view(r) == mount_in(*device, devnode@),
{
    let here = match &device.path {
        Some(p) => str_eq(p.as_str(), devnode),
        None => false,
    };
    if here {
        return Some(first_mountpoint(&device.mountpoints));
    }
    assert(seq![*device].drop_first() =~= Seq::<LsblkDevice>::empty());
    assert(seq![*device][0] == *device);
    assert(mount_in_forest(Seq::<LsblkDevice>::empty(), devnode@) is None);
    if device.children.is_none() {
        assert(children_of(*device) =~= Seq::<LsblkDevice>::empty());
    }
    match &device.children {
        Some(cs) => find_in_forest(cs, devnode),
        None => None,
    }
}

/// The mount point of `devnode` among `devices`; `None` when it is absent or not mounted.
pub fn find_mountpoint_in(devices: &Vec<LsblkDevice>, devnode: &str) -> (r: Option<String>)
    ensures
        crate::config::opt_str(r) == match mount_in_forest(devices@, devnode@) {
            Some(x) => x,
            None => None,
        },
{
    match find_in_forest(devices, devnode) {
        Some(x) => x,
        None => None,
    }
}

pub open spec fn is_type(t: Option<String>, v: Seq<char>) -> bool {
    opt_is(t, v)
}

/// A whole disk that is removable, hot-pluggable or attached over USB.
pub open spec fn is_removable_disk(d: LsblkDevice) -> bool {
    is_type(d.devtype, "disk"@) && (d.rm == Some(true) || d.hotplug == Some(true) || opt_is(
        d.tran,
        "usb"@,
    ))
}

pub open spec fn or_unknown(o: Option<String>) -> Seq<char> {
    match o {
        Some(s) => s@,
        None => "unknown"@,
    }
}

/// The device node: as reported, else under `/dev` by name.
pub open spec fn node_path(path: Option<String>, name: Option<String>) -> Seq<char> {
    match path {
        Some(p) => p@,
        None => "/dev/"@ + or_unknown(name),
    }
}

pub open spec fn describes_partition(d: LsblkDevice, p: PartitionInfo) -> bool {
    &&& p.name@ == or_unknown(d.name)
    &&& p.path@ == node_path(d.path, d.name)
    &&& p.size@ == or_unknown(d.size)
    &&& p.fstype == d.fstype
    &&& views(p.mountpoints@) == normalized(d.mountpoints)
}

/// The partitions among `cs`, in order.
pub open spec fn partitions(cs: Seq<LsblkDevice>) -> Seq<LsblkDevice>
    decreases cs.len(),
{
    if cs.len() == 0 {
        seq![]
    } else if is_type(cs.last().devtype, "part"@) {
        partitions(cs.drop_last()).push(cs.last())
    } else {
        partitions(cs.drop_last())
    }
}

/// The removable disks among `ds`, in order.
pub open spec fn removable_disks(ds: Seq<LsblkDevice>) -> Seq<LsblkDevice>
    decreases ds.len(),
{
    if ds.len() == 0 {
        seq![]
    } else if is_removable_disk(ds.last()) {
        removable_disks(ds.drop_last()).push(ds.last())
    } else {
        removable_disks(ds.drop_last())
    }
}

pub open spec fn describes_all_partitions(cs: Seq<LsblkDevice>, ps: Seq<PartitionInfo>) -> bool {
    &&& ps.len() == partitions(cs).len()
    &&& forall|i: int| 0 <= i < ps.len() ==> describes_partition(partitions(cs)[i], #[trigger] ps[i])
}

pub open spec fn describes_device(d: LsblkDevice, info: DeviceInfo) -> bool {
    &&& info.name@ == or_unknown(d.name)
    &&& info.path@ == node_path(d.path, d.name)
    &&& info.size@ == or_unknown(d.size)
    &&& info.model == d.model
    &&& info.removable
    &&& describes_all_partitions(children_of(d), info.partitions@)
}

fn or_unknown_str(o: &Option<String>) -> (r: String)
    ensures
        r@ == or_unknown(*o),
{
    match o {
        Some(s) => copy_str(s.as_str()),
        None => copy_str("unknown"),
    }
}

fn node_path_str(path: &Option<String>, name: &Option<String>) -> (r: String)
    ensures
        r@ == node_path(*path, *name),
{
    match path {
        Some(p) => copy_str(p.as_str()),
        None => {
            let n = or_unknown_str(name);
            concat2("/dev/", n.as_str())
        },
    }
}

fn has_devtype(t: &Option<String>, v: &str) -> (r: bool)
    ensures
        r == is_type(*t, v@),
{
    match t {
        Some(s) => str_eq(s.as_str(), v),
        None => false,
    }
}

fn partition_infos(cs: &Vec<LsblkDevice>) -> (r: Vec<PartitionInfo>)
    ensures
        describes_all_partitions(cs@, r@),
{
    let mut r: Vec<PartitionInfo> = Vec::new();
    let mut i: usize = 0;
    while i < cs.len()
        invariant
            i <= cs.len(),
            describes_all_partitions(cs@.take(i as int), r@),
        decreases cs.len() - i,
    {
        let c = &cs[i];
        assert(cs@.take(i as int + 1).drop_last() =~= cs@.take(i as int));
        if has_devtype(&c.devtype, "part") {
            r.push(PartitionInfo {
                name: or_unknown_str(&c.name),
                path: node_path_str(&c.path, &c.name),
                size: or_unknown_str(&c.size),
                fstype: clone_opt(&c.fstype),
                mountpoints: normalize_mountpoints(&c.mountpoints),
            });
        }
        i += 1;
    }
    assert(cs@.take(cs.len() as int) =~= cs@);
    r
}

/// The removable whole disks among the listing, each with its partitions.
pub fn removable_devices(devs: &Vec<LsblkDevice>) -> (r: Vec<DeviceInfo>)
    ensures
        r@.len() == removable_disks(devs@).len(),
        forall|i: int| 0 <= i < r@.len() ==> describes_device(removable_disks(devs@)[i], #[trigger] r@[i]),
{
    let mut r: Vec<DeviceInfo> = Vec::new();
    let mut i: usize = 0;
    while i < devs.len()
        invariant
            i <= devs.len(),
            r@.len() == removable_disks(devs@.take(i as int)).len(),
            forall|k: int|
                0 <= k < r@.len() ==> describes_device(
                    removable_disks(devs@.take(i as int))[k],
                    #[trigger] r@[k],
                ),
        decreases devs.len() - i,
    {
        let d = &devs[i];
        assert(devs@.take(i as int + 1).drop_last() =~= devs@.take(i as int));
        let usb = match &d.tran {
            Some(t) => str_eq(t.as_str(), "usb"),
            None => false,
        };
        let removable = d.rm == Some(true) || d.hotplug == Some(true) || usb;
        if has_devtype(&d.devtype, "disk") && removable {
            let partitions = match &d.children {
                Some(cs) => partition_infos(cs),
                None => {
                    let e: Vec<PartitionInfo> = Vec::new();
                    assert(describes_all_partitions(children_of(*d), e@));
                    e
                },
            };
            r.push(DeviceInfo {
                path: node_path_str(&d.path, &d.name),
                name: or_unknown_str(&d.name),
                size: or_unknown_str(&d.size),
                model: clone_opt(&d.model),
                removable: true,
                partitions,
            });
        }
        i += 1;
    }
    assert(devs@.take(devs.len() as int) =~= devs@);
    r
}

/// How a failed device helper is reported: an authorization denial is told apart.
pub open spec fn tool_failure(stderr: Seq<char>) -> AgentError {
    if contains(lower_of(stderr), "not authorized"@) || contains(lower_of(stderr), "authentication"@) {
        AgentError::AuthorizationRequired
    } else {
        AgentError::Device
    }
}

pub fn classify_tool_failure(stderr: &str) -> (r: AgentError)
    ensures
        r == tool_failure(stderr@),
{
    let lower = to_lower(stderr);
    if str_contains(lower.as_str(), "not authorized") || str_contains(lower.as_str(), "authentication") {
        AgentError::AuthorizationRequired
    } else {
        AgentError::Device
    }
}

/// Attempts at mounting, and at unmounting before a format.
pub const MOUNT_ATTEMPTS: u32 = 3;

/// Wait before retrying a mount the device-settling process was not done with.
pub const MOUNT_RETRY_DELAY_MS: u64 = 1200;

/// Wait before retrying a failed unmount ahead of a format.
pub const UNMOUNT_RETRY_DELAY_MS: u64 = 800;

/// Wait after a format for the new filesystem to be enumerated.
pub const SETTLE_DELAY_MS: u64 = 1200;

/// What to do after a mount attempt.
#[derive(Debug, Clone, Copy, PartialEq, Eq, Structural)]
pub enum MountStep {
    /// The mount helper succeeded: look up where the device is mounted.
    LookUp,
    /// Sleep this many milliseconds, then try again.
    RetryAfter(u64),
    Fail(AgentError),
}

pub open spec fn mount_step_of(attempt: u32, succeeded: bool, stderr: Seq<char>) -> MountStep {
    if succeeded {
        MountStep::LookUp
    } else if contains(stderr, "not a mountable filesystem"@) && attempt < MOUNT_ATTEMPTS {
        MountStep::RetryAfter(MOUNT_RETRY_DELAY_MS)
    } else {
        MountStep::Fail(tool_failure(stderr))
    }
}

/// Decides after mount attempt number `attempt` (from 1): a failure that says the
/// filesystem is not yet recognised is retried after a delay, up to three attempts.
pub fn mount_attempt_outcome(attempt: u32, succeeded: bool, stderr: &str) -> (r: MountStep)
    requires
        1 <= attempt <= MOUNT_ATTEMPTS,
    ensures
        r == mount_step_of(attempt, succeeded, stderr@),
{
    if succeeded {
        MountStep::LookUp
    } else if str_contains(stderr, "not a mountable filesystem") && attempt < MOUNT_ATTEMPTS {
        MountStep::RetryAfter(MOUNT_RETRY_DELAY_MS)
    } else {
        MountStep::Fail(classify_tool_failure(stderr))
    }
}

/// Where a successful mount went; a device that shows no mount point is an error.
pub fn mounted_at(found: Option<String>) -> (r: Result<String, AgentError>)
    ensures
        match found {
            Some(m) => r == Ok::<String, AgentError>(m),
            None => r == Err::<String, AgentError>(AgentError::Device),
        },
{
    match found {
        Some(m) => Ok(m),
        None => Err(AgentError::Device),
    }
}

/// What to do before formatting, at unmount attempt `attempt` (from 1).
#[derive(Debug, Clone, Copy, PartialEq, Eq, Structural)]
pub enum UnmountStep {
    /// Go on with the format.
    Proceed,
    /// Unmount the device, then ask again with the next attempt.
    Unmount,
}

/// Unmounting ahead of a format is tried while the device is mounted, three times at most.
pub fn unmount_step(attempt: u32, mounted: bool) -> (r: UnmountStep)
    ensures
        r == if mounted && attempt <= MOUNT_ATTEMPTS {
            UnmountStep::Unmount
        } else {
            UnmountStep::Proceed
        },
{
    if mounted && attempt <= MOUNT_ATTEMPTS {
        UnmountStep::Unmount
    } else {
        UnmountStep::Proceed
    }
}

/// After unmount attempt `attempt` failed: the delay before the next one, or `None`
/// when that was the last.
pub fn unmount_retry_delay(attempt: u32) -> (r: Option<u64>)
    ensures
        r == if attempt < MOUNT_ATTEMPTS {
            Some(UNMOUNT_RETRY_DELAY_MS)
        } else {
            None::<u64>
        },
{
    if attempt < MOUNT_ATTEMPTS {
        Some(UNMOUNT_RETRY_DELAY_MS)
    } else {
        None
    }
}

/// The volume label given to a formatted drive: `aegis` and six hexadecimal digits.
pub open spec fn disk_name_of(n: u32) -> Seq<char> {
    "aegis"@ + hex_fixed(n as nat, 6)
}

pub fn aegis_disk_name(n: u32) -> (r: String)
    ensures
        r@ == disk_name_of(n),
{
    let mut s = copy_str("aegis");
    push_hex_fixed(&mut s, n as u64, 6);
    s
}

/// A fresh random volume label.
pub fn generate_aegis_disk_name() -> (r: String)
    ensures
        exists|n: u32| r@ == disk_name_of(n),
{
    let n = random_u32();
    aegis_disk_name(n)
}

/// Arguments of the helper's own format command.
pub fn udisks_format_args(devnode: &str, label: &str) -> (r: Vec<String>)
    ensures
        views(r@) == seq!["format"@, "-b"@, devnode@, "--type"@, "exfat"@, "--label"@, label@],
{
    let r = vec![
        copy_str("format"),
        copy_str("-b"),
        copy_str(devnode),
        copy_str("--type"),
        copy_str("exfat"),
        copy_str("--label"),
        copy_str(label),
    ];
    assert(views(r@) =~= seq!["format"@, "-b"@, devnode@, "--type"@, "exfat"@, "--label"@, label@]);
    r
}

/// Arguments of the fallback formatter: the label flag `-n`, or `-L` as the alternate.
pub fn mkfs_args(alternate: bool, label: &str, devnode: &str) -> (r: Vec<String>)
    ensures
        views(r@) == seq![if alternate { "-L"@ } else { "-n"@ }, label@, devnode@],
{
    let flag = if alternate {
        copy_str("-L")
    } else {
        copy_str("-n")
    };
    let r = vec![flag, copy_str(label), copy_str(devnode)];
    assert(views(r@) =~= seq![if alternate { "-L"@ } else { "-n"@ }, label@, devnode@]);
    r
}

/// What to do after a run of the fallback formatter.
#[derive(Debug, Clone, Copy, PartialEq, Eq, Structural)]
pub enum MkfsStep {
    /// Formatted: let the device settle, wait, and report success.
    Settle,
    /// The label flag was rejected: run again with the alternate flag.
    RetryWithAlternate,
    Fail(AgentError),
}

pub open spec fn mkfs_step_of(alternate: bool, succeeded: bool, stderr: Seq<char>) -> MkfsStep {
    if succeeded {
        MkfsStep::Settle
    } else if !alternate && (contains(stderr, "invalid option"@) || contains(
        stderr,
        "unknown option"@,
    )) {
        MkfsStep::RetryWithAlternate
    } else {
        MkfsStep::Fail(tool_failure(stderr))
    }
}

/// Decides after the formatter ran with the primary (`alternate` false) or the
/// alternate label flag.
pub fn mkfs_outcome(alternate: bool, succeeded: bool, stderr: &str) -> (r: MkfsStep)
    ensures
        r == mkfs_step_of(alternate, succeeded, stderr@),
{
    if succeeded {
        MkfsStep::Settle
    } else if !alternate && (str_contains(stderr, "invalid option") || str_contains(
        stderr,
        "unknown option",
    )) {
        MkfsStep::RetryWithAlternate
    } else {
        MkfsStep::Fail(classify_tool_failure(stderr))
    }
}

/// Position `j` is preceded on its line by whitespace only.
pub open spec fn indented_start(s: Seq<char>, j: int) -> bool
    decreases j,
{
    if j <= 0 {
        true
    } else if s[j - 1] == '\n' {
        true
    } else {
        is_ws(s[j - 1]) && indented_start(s, j - 1)
    }
}

/// Some line of the helper's usage text begins, after indentation, with `format `.
pub open spec fn lists_format(s: Seq<char>) -> bool {
    exists|j: int|
        0 <= j && j + 7 <= s.len() && indented_start(s, j) && #[trigger] s.subrange(j, j + 7)
            == "format "@
}

/// Whether the helper's usage text lists a `format` command.
pub fn help_lists_format(stdout: &str) -> (r: bool)
    ensures
        r == lists_format(stdout@),
{
    let cs = chars_of(stdout);
    let pat = chars_of("format ");
    proof {
        reveal_strlit("format ");
    }
    assert(pat@.len() == 7);
    let mut indent = true;
    let mut i: usize = 0;
    while i < cs.len()
        invariant
            i <= cs.len(),
            pat@ == "format "@,
            pat@.len() == 7,
            cs@ == stdout@,
            indent == indented_start(cs@, i as int),
            forall|j: int|
                0 <= j < i && j + 7 <= cs@.len() && indented_start(cs@, j) ==> #[trigger] cs@.subrange(
                    j,
                    j + 7,
                ) != "format "@,
        decreases cs.len() - i,
    {
        if indent && cs.len() - i >= 7 {
            let mut k: usize = 0;
            let mut same = true;
            while k < 7
                invariant
                    k <= 7,
                    i + 7 <= cs.len(),
                    pat@.len() == 7,
                    same == (forall|m: int| 0 <= m < k ==> cs@[i + m] == pat@[m]),
                decreases 7 - k,
            {
                if cs[i + k] != pat[k] {
                    same = false;
                }
                k += 1;
            }
            if same {
                assert(cs@.subrange(i as int, i + 7) =~= pat@);
                assert(lists_format(cs@));
                return true;
            }
            assert(cs@.subrange(i as int, i + 7) != pat@) by {
                let m = choose|m: int| 0 <= m < 7 && cs@[i + m] != pat@[m];
                assert(cs@.subrange(i as int, i + 7)[m] == cs@[i + m]);
            }
        }
        let c = cs[i];
        indent = c == '\n' || (is_whitespace(c) && indent);
        i += 1;
    }
    false
}

} // verus!
