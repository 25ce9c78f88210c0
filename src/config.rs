//! The host-local trust store: trusted drive records, global backup settings
//! and label sanitization for untrusted input.
use vstd::prelude::*;
use crate::retention::RetentionPolicy;
use crate::text::{
    all_ws, chars_eq, chars_of, is_ctrl, is_trimmed, is_ws, join_path, join_path_str, lower_of, no_ctrl,
    prefix, prefix_chars, str_eq, string_of, strip_control_chars, strip_controls, to_lower, trim,
    trim_chars, trim_end, trim_start,
};

verus! {

/// Longest label kept after sanitization, in characters.
pub const LABEL_MAX_LEN: usize = 512;

/// The label `s` after sanitization: trimmed, control characters removed, at most
/// `LABEL_MAX_LEN` characters, trimmed again; absent when nothing is left.
pub open spec fn sanitized(s: Seq<char>) -> Option<Seq<char>> {
    let t = trim(prefix(strip_controls(trim(s)), LABEL_MAX_LEN as nat));
    if t.len() == 0 {
        None
    } else {
        Some(t)
    }
}

pub open spec fn opt_str(o: Option<String>) -> Option<Seq<char>> {
    match o {
        Some(s) => Some(s@),
        None => None,
    }
}

/// Sanitizes a label from user input or from disk.
pub fn sanitize_label(s: &str) -> (r: Option<String>)
    ensures
        opt_str(r) == sanitized(s@),
{
    let cs = chars_of(s);
    let t = trim_chars(&cs);
    let u = strip_control_chars(&t);
    let v = prefix_chars(&u, LABEL_MAX_LEN);
    let w = trim_chars(&v);
    if w.len() == 0 {
        None
    } else {
        Some(string_of(&w))
    }
}

/// Sanitizes a source label, falling back to `Source` when nothing is left.
pub fn sanitize_source_label(s: &str) -> (r: String)
    ensures
        r@ == source_label(s@),
{
    match sanitize_label(s) {
        Some(l) => l,
        None => String::from_str("Source"),
    }
}

pub open spec fn source_label(s: Seq<char>) -> Seq<char> {
    match sanitized(s) {
        Some(t) => t,
        None => "Source"@,
    }
}

proof fn lemma_trim_start_props(s: Seq<char>)
    ensures
        trim_start(s).len() <= s.len(),
        trim_start(s) == s.skip(s.len() - trim_start(s).len()),
        trim_start(s).len() > 0 ==> !is_ws(trim_start(s)[0]),
        all_ws(s) ==> trim_start(s).len() == 0,
    decreases s.len(),
{
    if s.len() > 0 && is_ws(s[0]) {
        lemma_trim_start_props(s.drop_first());
        assert(s.drop_first().skip(s.drop_first().len() - trim_start(s).len()) =~= s.skip(
            s.len() - trim_start(s).len(),
        ));
        if all_ws(s) {
            assert(all_ws(s.drop_first())) by {
                assert forall|i: int| 0 <= i < s.drop_first().len() implies is_ws(
                    #[trigger] s.drop_first()[i],
                ) by {
                    assert(s.drop_first()[i] == s[i + 1]);
                }
            }
        }
    } else {
        assert(s.skip(0) =~= s);
    }
}

proof fn lemma_trim_end_props(s: Seq<char>)
    ensures
        trim_end(s).len() <= s.len(),
        trim_end(s) == s.take(trim_end(s).len() as int),
        trim_end(s).len() > 0 ==> !is_ws(trim_end(s).last()),
    decreases s.len(),
{
    if s.len() > 0 && is_ws(s.last()) {
        lemma_trim_end_props(s.drop_last());
        assert(s.drop_last().take(trim_end(s).len() as int) =~= s.take(trim_end(s).len() as int));
    } else {
        assert(s.take(s.len() as int) =~= s);
    }
}

proof fn lemma_trim_props(s: Seq<char>)
    ensures
        trim(s).len() <= s.len(),
        is_trimmed(trim(s)),
        no_ctrl(s) ==> no_ctrl(trim(s)),
        all_ws(s) ==> trim(s).len() == 0,
{
    let a = trim_start(s);
    lemma_trim_start_props(s);
    lemma_trim_end_props(a);
    let t = trim_end(a);
    if t.len() > 0 {
        assert(t[0] == a[0]);
    }
    if no_ctrl(s) {
        assert forall|i: int| 0 <= i < t.len() implies !is_ctrl(#[trigger] t[i]) by {
            assert(t[i] == a[i]);
            assert(a[i] == s[i + s.len() - a.len()]);
        }
    }
    if all_ws(s) {
        assert(a.len() == 0);
    }
}

proof fn lemma_trimmed_fixed(s: Seq<char>)
    requires
        is_trimmed(s),
    ensures
        trim(s) == s,
{
    assert(trim_start(s) == s);
    assert(trim_end(s) == s);
}

proof fn lemma_strip_no_ctrl(s: Seq<char>)
    ensures
        no_ctrl(strip_controls(s)),
        no_ctrl(s) ==> strip_controls(s) == s,
    decreases s.len(),
{
    if s.len() > 0 {
        lemma_strip_no_ctrl(s.drop_last());
        if no_ctrl(s) {
            assert(!is_ctrl(s[s.len() - 1]));
            assert(no_ctrl(s.drop_last())) by {
                assert forall|i: int| 0 <= i < s.drop_last().len() implies !is_ctrl(
                    #[trigger] s.drop_last()[i],
                ) by {
                    assert(s.drop_last()[i] == s[i]);
                }
            }
            assert(s.drop_last().push(s.last()) =~= s);
        }
        let p = strip_controls(s.drop_last());
        if !is_ctrl(s.last()) {
            assert forall|i: int| 0 <= i < p.push(s.last()).len() implies !is_ctrl(
                #[trigger] p.push(s.last())[i],
            ) by {
                if i < p.len() {
                    assert(p.push(s.last())[i] == p[i]);
                }
            }
        }
    }
}

proof fn lemma_prefix_props(s: Seq<char>, n: nat)
    ensures
        prefix(s, n).len() <= n,
        prefix(s, n).len() <= s.len(),
        no_ctrl(s) ==> no_ctrl(prefix(s, n)),
        s.len() <= n ==> prefix(s, n) == s,
{
    if no_ctrl(s) && s.len() > n {
        assert forall|i: int| 0 <= i < prefix(s, n).len() implies !is_ctrl(
            #[trigger] prefix(s, n)[i],
        ) by {
            assert(prefix(s, n)[i] == s[i]);
        }
    }
}

/// Sanitization is idempotent, and what it keeps holds no control character, has
/// no surrounding whitespace and is at most `LABEL_MAX_LEN` characters long; an
/// empty or all-whitespace label sanitizes to absent.
pub proof fn lemma_sanitize_idempotent(s: Seq<char>)
    ensures
        sanitized(s) matches Some(t) ==> sanitized(t) == Some(t) && no_ctrl(t) && is_trimmed(t)
            && t.len() <= LABEL_MAX_LEN && t.len() > 0,
        all_ws(s) ==> sanitized(s) is None,
{
    let a = trim(s);
    let b = strip_controls(a);
    let c = prefix(b, LABEL_MAX_LEN as nat);
    let t = trim(c);
    lemma_trim_props(s);
    lemma_strip_no_ctrl(a);
    lemma_prefix_props(b, LABEL_MAX_LEN as nat);
    lemma_trim_props(c);
    if t.len() > 0 {
        lemma_trimmed_fixed(t);
        lemma_strip_no_ctrl(t);
        lemma_prefix_props(t, LABEL_MAX_LEN as nat);
    }
    if all_ws(s) {
        assert(a.len() == 0);
        assert(b.len() == 0);
        assert(c.len() == 0);
        assert(t.len() == 0);
    }
}

/// `idx` places each element of `a`, in order, at a position of `b` holding it.
pub open spec fn embeds(idx: Seq<int>, a: Seq<char>, b: Seq<char>) -> bool {
    &&& idx.len() == a.len()
    &&& forall|i: int| 0 <= i < idx.len() ==> 0 <= #[trigger] idx[i] < b.len() && b[idx[i]] == a[i]
    &&& forall|i: int, j: int| 0 <= i < j < idx.len() ==> #[trigger] idx[i] < #[trigger] idx[j]
}

/// `a` is `b` with some elements removed and none added or reordered.
pub open spec fn is_subseq(a: Seq<char>, b: Seq<char>) -> bool {
    exists|idx: Seq<int>| #[trigger] embeds(idx, a, b)
}

proof fn lemma_subrange_subseq(b: Seq<char>, lo: int, hi: int)
    requires
        0 <= lo <= hi <= b.len(),
    ensures
        is_subseq(b.subrange(lo, hi), b),
{
    let a = b.subrange(lo, hi);
    let idx = Seq::new(a.len(), |i: int| i + lo);
    assert(embeds(idx, a, b));
}

proof fn lemma_subseq_trans(a: Seq<char>, b: Seq<char>, c: Seq<char>)
    requires
        is_subseq(a, b),
        is_subseq(b, c),
    ensures
        is_subseq(a, c),
{
    let f = choose|f: Seq<int>| embeds(f, a, b);
    let g = choose|g: Seq<int>| embeds(g, b, c);
    let h = Seq::new(a.len(), |i: int| g[f[i]]);
    assert forall|i: int, j: int| 0 <= i < j < h.len() implies #[trigger] h[i] < #[trigger] h[j] by {
        assert(f[i] < f[j]);
    }
    assert(embeds(h, a, c));
}

proof fn lemma_trim_subseq(s: Seq<char>)
    ensures
        is_subseq(trim(s), s),
{
    let a = trim_start(s);
    lemma_trim_start_props(s);
    lemma_trim_end_props(a);
    assert(a == s.subrange(s.len() - a.len(), s.len() as int));
    lemma_subrange_subseq(s, s.len() - a.len(), s.len() as int);
    assert(trim(s) == a.subrange(0, trim_end(a).len() as int));
    lemma_subrange_subseq(a, 0, trim_end(a).len() as int);
    lemma_subseq_trans(trim(s), a, s);
}

proof fn lemma_strip_subseq(s: Seq<char>)
    ensures
        is_subseq(strip_controls(s), s),
    decreases s.len(),
{
    if s.len() == 0 {
        assert(embeds(Seq::<int>::empty(), strip_controls(s), s));
    } else {
        let p = s.drop_last();
        lemma_strip_subseq(p);
        let f = choose|f: Seq<int>| embeds(f, strip_controls(p), p);
        if is_ctrl(s.last()) {
            assert(embeds(f, strip_controls(s), s));
        } else {
            let g = f.push(s.len() - 1);
            assert forall|i: int, j: int| 0 <= i < j < g.len() implies #[trigger] g[i] < #[trigger] g[j] by {
                if j == g.len() - 1 {
                    assert(f[i] < p.len());
                }
            }
            assert(embeds(g, strip_controls(s), s));
        }
    }
}

proof fn lemma_prefix_subseq(s: Seq<char>, n: nat)
    ensures
        is_subseq(prefix(s, n), s),
{
    if s.len() <= n {
        lemma_subrange_subseq(s, 0, s.len() as int);
        assert(s.subrange(0, s.len() as int) == s);
    } else {
        lemma_subrange_subseq(s, 0, n as int);
    }
}

/// Sanitization only removes characters: what it keeps is a subsequence of the input.
pub proof fn lemma_sanitized_subsequence(s: Seq<char>)
    ensures
        sanitized(s) matches Some(t) ==> is_subseq(t, s),
{
    let a = trim(s);
    let b = strip_controls(a);
    let c = prefix(b, LABEL_MAX_LEN as nat);
    let t = trim(c);
    lemma_trim_subseq(s);
    lemma_strip_subseq(a);
    lemma_prefix_subseq(b, LABEL_MAX_LEN as nat);
    lemma_trim_subseq(c);
    lemma_subseq_trans(b, a, s);
    lemma_subseq_trans(c, b, s);
    lemma_subseq_trans(t, c, s);
}

/// Relies on `SystemTime::elapsed` on the Unix epoch: seconds since then, or 0 for a
/// clock set before it.
#[verifier::external_body]
pub(crate) fn now_epoch() -> u64 {
    match std::time::UNIX_EPOCH.elapsed() {
        Ok(d) => d.as_secs(),
        Err(_) => 0,
    }
}

pub struct BackupSource {
    pub label: String,
    /// Absolute or home-relative (`~/`) path.
    pub path: String,
}

impl Clone for BackupSource {
    fn clone(&self) -> (r: Self)
        ensures
            r == *self,
    {
        BackupSource { label: self.label.clone(), path: self.path.clone() }
    }
}

impl BackupSource {
    /// The same source with its label sanitized.
    pub fn sanitized(&self) -> (r: BackupSource)
        ensures
            r.label@ == source_label(self.label@),
            r.path == self.path,
    {
        BackupSource { label: sanitize_source_label(self.label.as_str()), path: self.path.clone() }
    }
}

pub open spec fn sources_sanitized(a: Seq<BackupSource>, b: Seq<BackupSource>) -> bool {
    &&& a.len() == b.len()
    &&& forall|i: int|
        0 <= i < a.len() ==> (#[trigger] b[i]).label@ == source_label(a[i].label@) && b[i].path
            == a[i].path
}

/// Each source with its label sanitized, in the same order.
pub fn sanitize_sources(v: &Vec<BackupSource>) -> (r: Vec<BackupSource>)
    ensures
        sources_sanitized(v@, r@),
{
    let mut r: Vec<BackupSource> = Vec::new();
    let mut i: usize = 0;
    while i < v.len()
        invariant
            i <= v.len(),
            sources_sanitized(v@.take(i as int), r@),
        decreases v.len() - i,
    {
        r.push(v[i].sanitized());
        i += 1;
    }
    assert(v@.take(v.len() as int) == v@);
    r
}

#[derive(Clone)]
pub struct TrustedDrive {
    pub drive_id: String,
    pub label: Option<String>,
    /// Repository path relative to the mount root.
    pub repository_path: String,
    pub repository_id: Option<String>,
    pub last_seen_epoch: Option<u64>,
    /// When a backup to this drive last completed.
    pub last_backup_epoch: Option<u64>,
    /// Snapshot id of that backup.
    pub last_backup_snapshot_id: Option<String>,
    /// When set, the sources backed up to this drive instead of the global list.
    pub backup_sources: Option<Vec<BackupSource>>,
}

/// `i` is the first position of a record for `id`.
pub open spec fn is_first_match(ds: Seq<TrustedDrive>, id: Seq<char>, i: int) -> bool {
    &&& 0 <= i < ds.len()
    &&& ds[i].drive_id@ == id
    &&& forall|j: int| 0 <= j < i ==> (#[trigger] ds[j]).drive_id@ != id
}

pub open spec fn has_drive(ds: Seq<TrustedDrive>, id: Seq<char>) -> bool {
    exists|i: int| 0 <= i < ds.len() && (#[trigger] ds[i]).drive_id@ == id
}

/// Position of the record for `id`, if any.
pub open spec fn find_drive(ds: Seq<TrustedDrive>, id: Seq<char>) -> Option<int> {
    if exists|i: int| is_first_match(ds, id, i) {
        Some(choose|i: int| is_first_match(ds, id, i))
    } else {
        None
    }
}

pub proof fn lemma_find_drive(ds: Seq<TrustedDrive>, id: Seq<char>)
    ensures
        find_drive(ds, id) matches Some(i) ==> is_first_match(ds, id, i),
        find_drive(ds, id) is None <==> !has_drive(ds, id),
        forall|i: int| is_first_match(ds, id, i) ==> find_drive(ds, id) == Some(i),
{
    if has_drive(ds, id) {
        let k = choose|k: int| 0 <= k < ds.len() && (#[trigger] ds[k]).drive_id@ == id;
        lemma_first_match_exists(ds, id, k);
    }
    assert forall|i: int| is_first_match(ds, id, i) implies find_drive(ds, id) == Some(i) by {
        let c = choose|c: int| is_first_match(ds, id, c);
        assert(is_first_match(ds, id, c));
        if c < i {
            assert(ds[c].drive_id@ != id);
        }
        if i < c {
            assert(ds[i].drive_id@ != id);
        }
    }
}

proof fn lemma_first_match_exists(ds: Seq<TrustedDrive>, id: Seq<char>, k: int)
    requires
        0 <= k < ds.len(),
        ds[k].drive_id@ == id,
    ensures
        exists|i: int| is_first_match(ds, id, i),
    decreases k,
{
    if forall|j: int| 0 <= j < k ==> (#[trigger] ds[j]).drive_id@ != id {
        assert(is_first_match(ds, id, k));
    } else {
        let j = choose|j: int| 0 <= j < k && (#[trigger] ds[j]).drive_id@ == id;
        lemma_first_match_exists(ds, id, j);
    }
}

/// Position of the record for `drive_id` in `ds`.
pub fn find_drive_index(ds: &Vec<TrustedDrive>, drive_id: &str) -> (r: Option<usize>)
    ensures
        match r {
            Some(i) => find_drive(ds@, drive_id@) == Some(i as int),
            None => find_drive(ds@, drive_id@) is None,
        },
{
    let mut i: usize = 0;
    while i < ds.len()
        invariant
            i <= ds.len(),
            forall|j: int| 0 <= j < i ==> (#[trigger] ds@[j]).drive_id@ != drive_id@,
        decreases ds.len() - i,
    {
        if str_eq(ds[i].drive_id.as_str(), drive_id) {
            proof {
                lemma_find_drive(ds@, drive_id@);
                assert(is_first_match(ds@, drive_id@, i as int));
            }
            return Some(i);
        }
        i += 1;
    }
    proof {
        lemma_find_drive(ds@, drive_id@);
    }
    None
}

/// The trusted drives with the record for `id`, if any, last seen at `e`.
pub open spec fn seen_at(ds: Seq<TrustedDrive>, id: Seq<char>, e: u64) -> Seq<TrustedDrive> {
    match find_drive(ds, id) {
        Some(i) => ds.update(i, TrustedDrive { last_seen_epoch: Some(e), ..ds[i] }),
        None => ds,
    }
}

pub open spec fn backed_up_at(
    ds: Seq<TrustedDrive>,
    id: Seq<char>,
    e: u64,
    snapshot_id: Option<String>,
) -> Seq<TrustedDrive> {
    match find_drive(ds, id) {
        Some(i) => ds.update(
            i,
            TrustedDrive {
                last_backup_epoch: Some(e),
                last_backup_snapshot_id: snapshot_id,
                ..ds[i]
            },
        ),
        None => ds,
    }
}

/// `t` is `ds` with the repository id of the record for `id`, if any, set to `repo_id`.
pub open spec fn repo_id_recorded(
    ds: Seq<TrustedDrive>,
    t: Seq<TrustedDrive>,
    id: Seq<char>,
    repo_id: Seq<char>,
) -> bool {
    match find_drive(ds, id) {
        Some(i) => {
            &&& t[i].repository_id matches Some(x) && x@ == repo_id
            &&& t == ds.update(i, TrustedDrive { repository_id: t[i].repository_id, ..ds[i] })
        },
        None => t == ds,
    }
}

/// Marking a drive as seen keeps every identity.
pub proof fn lemma_seen_keeps_ids(ds: Seq<TrustedDrive>, id: Seq<char>, e: u64)
    requires
        unique_ids(ds),
    ensures
        unique_ids(seen_at(ds, id, e)),
        seen_at(ds, id, e).len() == ds.len(),
{
    let t = seen_at(ds, id, e);
    assert forall|i: int, j: int|
        0 <= i < t.len() && 0 <= j < t.len() && i != j implies (#[trigger] t[i]).drive_id@ != (
        #[trigger] t[j]).drive_id@ by {
        assert(t[i].drive_id == ds[i].drive_id);
        assert(t[j].drive_id == ds[j].drive_id);
    }
}

/// Inserting `d`, or replacing the record with its identity.
pub open spec fn upsert(ds: Seq<TrustedDrive>, d: TrustedDrive) -> Seq<TrustedDrive> {
    match find_drive(ds, d.drive_id@) {
        Some(i) => ds.update(i, d),
        None => ds.push(d),
    }
}

/// No two records share an identity.
pub open spec fn unique_ids(ds: Seq<TrustedDrive>) -> bool {
    forall|i: int, j: int|
        0 <= i < ds.len() && 0 <= j < ds.len() && i != j ==> (#[trigger] ds[i]).drive_id@ != (
        #[trigger] ds[j]).drive_id@
}

/// Whether another trusted drive than `exclude` has a label equal to `label`,
/// both trimmed and lower-cased.
pub open spec fn label_taken(
    ds: Seq<TrustedDrive>,
    label: Seq<char>,
    exclude: Option<Seq<char>>,
) -> bool {
    let key = lower_of(trim(label));
    key.len() > 0 && exists|i: int| 0 <= i < ds.len() && label_clash(#[trigger] ds[i], key, exclude)
}

/// `d` is not the excluded drive and its label compares equal to `key`.
pub open spec fn label_clash(d: TrustedDrive, key: Seq<char>, exclude: Option<Seq<char>>) -> bool {
    let excluded = match exclude {
        Some(e) => d.drive_id@ == e,
        None => false,
    };
    !excluded && match d.label {
        Some(l) => lower_of(trim(l@)) == key,
        None => false,
    }
}

pub struct AgentConfig {
    pub trusted_drives: Vec<TrustedDrive>,
    pub backup_sources: Vec<BackupSource>,
    pub include_patterns: Vec<String>,
    pub exclude_patterns: Vec<String>,
    pub retention: RetentionPolicy,
    pub quick_verify: bool,
    pub deep_verify: bool,
    pub auto_backup_on_insert: bool,
    pub remember_passphrase: bool,
    pub paranoid_mode: bool,
    /// Where the engine binary is, when not found by the usual lookup.
    pub restic_path: Option<String>,
}

impl AgentConfig {
    /// Everything but the trusted drives is the same in `self` and `o`.
    pub open spec fn same_settings(self, o: AgentConfig) -> bool {
        &&& self.backup_sources == o.backup_sources
        &&& self.include_patterns == o.include_patterns
        &&& self.exclude_patterns == o.exclude_patterns
        &&& self.retention == o.retention
        &&& self.quick_verify == o.quick_verify
        &&& self.deep_verify == o.deep_verify
        &&& self.auto_backup_on_insert == o.auto_backup_on_insert
        &&& self.remember_passphrase == o.remember_passphrase
        &&& self.paranoid_mode == o.paranoid_mode
        &&& self.restic_path == o.restic_path
    }

    pub open spec fn wf(self) -> bool {
        unique_ids(self.trusted_drives@)
    }

    pub open spec fn is_trusted(self, id: Seq<char>) -> bool {
        has_drive(self.trusted_drives@, id)
    }

    pub fn update_last_seen(&mut self, drive_id: &str)
        ensures
            exists|e: u64| final(self).trusted_drives@ == seen_at(old(self).trusted_drives@, drive_id@, e),
            final(self).same_settings(*old(self)),
    {
        let e = now_epoch();
        self.record_last_seen(drive_id, e);
    }

    /// Sets the last-seen time of the record for `drive_id`, if there is one.
    pub fn record_last_seen(&mut self, drive_id: &str, epoch: u64)
        ensures
            final(self).trusted_drives@ == seen_at(old(self).trusted_drives@, drive_id@, epoch),
            final(self).same_settings(*old(self)),
    {
        if let Some(i) = find_drive_index(&self.trusted_drives, drive_id) {
            let mut d = self.trusted_drives.remove(i);
            d.last_seen_epoch = Some(epoch);
            self.trusted_drives.insert(i, d);
            assert(self.trusted_drives@ =~= seen_at(old(self).trusted_drives@, drive_id@, epoch));
        }
    }

    /// Records that a backup to this drive completed.
    pub fn update_last_backup(&mut self, drive_id: &str, epoch: u64, snapshot_id: Option<String>)
        ensures
            final(self).trusted_drives@ == backed_up_at(
                old(self).trusted_drives@,
                drive_id@,
                epoch,
                snapshot_id,
            ),
            final(self).same_settings(*old(self)),
    {
        if let Some(i) = find_drive_index(&self.trusted_drives, drive_id) {
            let mut d = self.trusted_drives.remove(i);
            d.last_backup_epoch = Some(epoch);
            d.last_backup_snapshot_id = snapshot_id;
            self.trusted_drives.insert(i, d);
            assert(self.trusted_drives@ =~= backed_up_at(
                old(self).trusted_drives@,
                drive_id@,
                epoch,
                snapshot_id,
            ));
        }
    }

    /// Records the repository id of the record for `drive_id`; false when there is none.
    pub fn set_repository_id(&mut self, drive_id: &str, repo_id: &str) -> (r: bool)
        ensures
            r == old(self).is_trusted(drive_id@),
            final(self).same_settings(*old(self)),
            final(self).trusted_drives@.len() == old(self).trusted_drives@.len(),
            repo_id_recorded(
                old(self).trusted_drives@,
                final(self).trusted_drives@,
                drive_id@,
                repo_id@,
            ),
    {
        proof {
            lemma_find_drive(self.trusted_drives@, drive_id@);
        }
        if let Some(i) = find_drive_index(&self.trusted_drives, drive_id) {
            let mut d = self.trusted_drives.remove(i);
            d.repository_id = Some(String::from_str(repo_id));
            self.trusted_drives.insert(i, d);
            assert(self.trusted_drives@ =~= old(self).trusted_drives@.update(
                i as int,
                TrustedDrive {
                    repository_id: self.trusted_drives@[i as int].repository_id,
                    ..old(self).trusted_drives@[i as int]
                },
            ));
            true
        } else {
            false
        }
    }

    /// Paranoid mode forbids caching passphrases.
    pub fn enforce_security_invariants(&mut self)
        ensures
            final(self).remember_passphrase == (old(self).remember_passphrase
                && !old(self).paranoid_mode),
            final(self).paranoid_mode == old(self).paranoid_mode,
            final(self).trusted_drives == old(self).trusted_drives,
            final(self).backup_sources == old(self).backup_sources,
            final(self).include_patterns == old(self).include_patterns,
            final(self).exclude_patterns == old(self).exclude_patterns,
            final(self).retention == old(self).retention,
            final(self).quick_verify == old(self).quick_verify,
            final(self).deep_verify == old(self).deep_verify,
            final(self).auto_backup_on_insert == old(self).auto_backup_on_insert,
            final(self).restic_path == old(self).restic_path,
    {
        if self.paranoid_mode {
            self.remember_passphrase = false;
        }
    }

    /// Whether no two trusted drives share an identity.
    pub fn has_unique_ids(&self) -> (r: bool)
        ensures
            r == self.wf(),
    {
        let n = self.trusted_drives.len();
        let mut i: usize = 0;
        while i < n
            invariant
                i <= n,
                n == self.trusted_drives@.len(),
                forall|a: int, b: int|
                    0 <= a < i && 0 <= b < n && a != b ==> (#[trigger] self.trusted_drives@[a]).drive_id@
                        != (#[trigger] self.trusted_drives@[b]).drive_id@,
            decreases n - i,
        {
            let mut j: usize = 0;
            while j < n
                invariant
                    i < n,
                    j <= n,
                    n == self.trusted_drives@.len(),
                    forall|b: int|
                        0 <= b < j && b != i ==> self.trusted_drives@[i as int].drive_id@
                            != (#[trigger] self.trusted_drives@[b]).drive_id@,
                decreases n - j,
            {
                if j != i && str_eq(
                    self.trusted_drives[i].drive_id.as_str(),
                    self.trusted_drives[j].drive_id.as_str(),
                ) {
                    assert(!unique_ids(self.trusted_drives@)) by {
                        assert(self.trusted_drives@[i as int].drive_id@ == self.trusted_drives@[j as int].drive_id@);
                    }
                    return false;
                }
                j += 1;
            }
            i += 1;
        }
        true
    }

    pub fn is_first_run(&self) -> (r: bool)
        ensures
            r == (self.trusted_drives@.len() == 0),
    {
        self.trusted_drives.len() == 0
    }

    /// Where the repository of `drive_id` lies under `mount_root`.
    pub fn repository_path_for(&self, drive_id: &str, mount_root: &str) -> (r: Option<String>)
        ensures
            match find_drive(self.trusted_drives@, drive_id@) {
                Some(i) => r matches Some(p) && p@ == join_path(
                    mount_root@,
                    self.trusted_drives@[i].repository_path@,
                ),
                None => r is None,
            },
    {
        match find_drive_index(&self.trusted_drives, drive_id) {
            Some(i) => Some(
                join_path_str(mount_root, self.trusted_drives[i].repository_path.as_str()),
            ),
            None => None,
        }
    }

    pub open spec fn sources_for(self, id: Seq<char>) -> Seq<BackupSource> {
        match find_drive(self.trusted_drives@, id) {
            Some(i) => match self.trusted_drives@[i].backup_sources {
                Some(v) => v@,
                None => self.backup_sources@,
            },
            None => self.backup_sources@,
        }
    }

    /// Sources to back up for this drive: its own list if set, else the global one.
    pub fn backup_sources_for_drive(&self, drive_id: &str) -> (r: Vec<BackupSource>)
        ensures
            r@ == self.sources_for(drive_id@),
    {
        match find_drive_index(&self.trusted_drives, drive_id) {
            Some(i) => match &self.trusted_drives[i].backup_sources {
                Some(v) => {
                    let c = v.clone();
                    assert(c@ =~= v@);
                    c
                },
                None => {
                    let c = self.backup_sources.clone();
                    assert(c@ =~= self.backup_sources@);
                    c
                },
            },
            None => {
                let c = self.backup_sources.clone();
                assert(c@ =~= self.backup_sources@);
                c
            },
        }
    }

    /// True if another trusted drive already has this label, compared trimmed and
    /// lower-cased.
    pub fn label_exists(&self, label: &str, exclude_drive_id: Option<&str>) -> (r: bool)
        ensures
            r == label_taken(
                self.trusted_drives@,
                label@,
                match exclude_drive_id {
                    Some(e) => Some(e@),
                    None => None,
                },
            ),
    {
        let ghost ex = match exclude_drive_id {
            Some(e) => Some(e@),
            None => None,
        };
        let key = lower_trimmed(label);
        let key_v = chars_of(key.as_str());
        if key_v.len() == 0 {
            return false;
        }
        let mut i: usize = 0;
        while i < self.trusted_drives.len()
            invariant
                i <= self.trusted_drives.len(),
                key@ == lower_of(trim(label@)),
                key_v@ == key@,
                key@.len() > 0,
                ex == match exclude_drive_id {
                    Some(e) => Some(e@),
                    None => None::<Seq<char>>,
                },
                forall|j: int|
                    0 <= j < i ==> !label_clash(#[trigger] self.trusted_drives@[j], key@, ex),
            decreases self.trusted_drives.len() - i,
        {
            let d = &self.trusted_drives[i];
            let skip = match exclude_drive_id {
                Some(e) => str_eq(e, d.drive_id.as_str()),
                None => false,
            };
            if !skip {
                if let Some(l) = &d.label {
                    let lk = lower_trimmed(l.as_str());
                    if chars_eq(&chars_of(lk.as_str()), &key_v) {
                        assert(label_clash(self.trusted_drives@[i as int], key@, ex));
                        return true;
                    }
                }
            }
            i += 1;
        }
        false
    }

    /// Inserts `drive`, replacing the record with the same identity if there is one.
    pub fn trust_drive(&mut self, drive: TrustedDrive)
        requires
            old(self).wf(),
        ensures
            final(self).trusted_drives@ == upsert(old(self).trusted_drives@, drive),
            final(self).wf(),
            final(self).same_settings(*old(self)),
    {
        proof {
            lemma_find_drive(self.trusted_drives@, drive.drive_id@);
        }
        match find_drive_index(&self.trusted_drives, drive.drive_id.as_str()) {
            Some(i) => {
                self.trusted_drives.set(i, drive);
            },
            None => {
                self.trusted_drives.push(drive);
            },
        }
        proof {
            let ds = self.trusted_drives@;
            assert forall|i: int, j: int|
                0 <= i < ds.len() && 0 <= j < ds.len() && i != j implies (#[trigger] ds[i]).drive_id@
                != (#[trigger] ds[j]).drive_id@ by {
                let o = old(self).trusted_drives@;
                if i < o.len() && j < o.len() {
                    if ds[i] != o[i] {
                        assert(o[i].drive_id@ == ds[i].drive_id@);
                    }
                }
            }
        }
    }

    /// Removes and returns the record for `drive_id`.
    pub fn remove_drive(&mut self, drive_id: &str) -> (r: Option<TrustedDrive>)
        ensures
            match find_drive(old(self).trusted_drives@, drive_id@) {
                Some(i) => r == Some(old(self).trusted_drives@[i]) && final(self).trusted_drives@
                    == old(self).trusted_drives@.remove(i),
                None => r is None && final(self).trusted_drives@ == old(self).trusted_drives@,
            },
            old(self).wf() ==> final(self).wf(),
            final(self).same_settings(*old(self)),
    {
        match find_drive_index(&self.trusted_drives, drive_id) {
            Some(i) => {
                let d = self.trusted_drives.remove(i);
                proof {
                    let ds = self.trusted_drives@;
                    let o = old(self).trusted_drives@;
                    if unique_ids(o) {
                        assert forall|a: int, b: int|
                            0 <= a < ds.len() && 0 <= b < ds.len() && a != b implies (
                            #[trigger] ds[a]).drive_id@ != (#[trigger] ds[b]).drive_id@ by {
                            let oa = if a < i { a } else { a + 1 };
                            let ob = if b < i { b } else { b + 1 };
                            assert(ds[a] == o[oa]);
                            assert(ds[b] == o[ob]);
                        }
                    }
                }
                Some(d)
            },
            None => None,
        }
    }
}

pub fn clone_opt(o: &Option<String>) -> (r: Option<String>)
    ensures
        r == *o,
{
    match o {
        Some(s) => Some(s.clone()),
        None => None,
    }
}

/// `b` is the record `a` as trusted after loading: labels sanitized.
pub open spec fn drive_loaded(a: TrustedDrive, b: TrustedDrive) -> bool {
    &&& b.drive_id == a.drive_id
    &&& b.repository_path == a.repository_path
    &&& b.repository_id == a.repository_id
    &&& b.last_seen_epoch == a.last_seen_epoch
    &&& b.last_backup_epoch == a.last_backup_epoch
    &&& b.last_backup_snapshot_id == a.last_backup_snapshot_id
    &&& opt_str(b.label) == match a.label {
        Some(l) => sanitized(l@),
        None => None,
    }
    &&& match a.backup_sources {
        Some(v) => b.backup_sources is Some && sources_sanitized(v@, b.backup_sources->0@),
        None => b.backup_sources is None,
    }
}

impl Default for AgentConfig {
    fn default() -> (r: Self)
        ensures
            r.trusted_drives@.len() == 0,
            r.backup_sources@.len() == 3,
            r.backup_sources@[0].label@ == "Documents"@ && r.backup_sources@[0].path@
                == "~/Documents"@,
            r.backup_sources@[1].label@ == "Pictures"@ && r.backup_sources@[1].path@
                == "~/Pictures"@,
            r.backup_sources@[2].label@ == "Desktop"@ && r.backup_sources@[2].path@ == "~/Desktop"@,
            r.include_patterns@.len() == 0,
            r.exclude_patterns@.len() == 0,
            !r.retention.enabled && r.retention.min_snapshots == 3 && r.retention.keep_last == 0,
            r.retention.keep_daily == 0 && r.retention.keep_weekly == 0,
            r.retention.keep_monthly == 0 && r.retention.keep_yearly == 0,
            r.quick_verify && !r.deep_verify && r.auto_backup_on_insert,
            r.remember_passphrase && !r.paranoid_mode,
            r.restic_path is None,
            r.wf(),
    {
        let sources = vec![
            BackupSource { label: String::from_str("Documents"), path: String::from_str("~/Documents") },
            BackupSource { label: String::from_str("Pictures"), path: String::from_str("~/Pictures") },
            BackupSource { label: String::from_str("Desktop"), path: String::from_str("~/Desktop") },
        ];
        AgentConfig {
            trusted_drives: Vec::new(),
            backup_sources: sources,
            include_patterns: Vec::new(),
            exclude_patterns: Vec::new(),
            retention: RetentionPolicy::default(),
            quick_verify: true,
            deep_verify: false,
            auto_backup_on_insert: true,
            remember_passphrase: true,
            paranoid_mode: false,
            restic_path: None,
        }
    }
}

impl AgentConfig {
    /// Makes a configuration read from disk trustworthy: every drive label and source
    /// label sanitized, and the passphrase policy enforced.
    pub fn sanitize_loaded(&mut self)
        ensures
            final(self).trusted_drives@.len() == old(self).trusted_drives@.len(),
            forall|i: int|
                0 <= i < old(self).trusted_drives@.len() ==> drive_loaded(
                    old(self).trusted_drives@[i],
                    #[trigger] final(self).trusted_drives@[i],
                ),
            old(self).wf() ==> final(self).wf(),
            sources_sanitized(old(self).backup_sources@, final(self).backup_sources@),
            final(self).include_patterns == old(self).include_patterns,
            final(self).exclude_patterns == old(self).exclude_patterns,
            final(self).retention == old(self).retention,
            final(self).quick_verify == old(self).quick_verify,
            final(self).deep_verify == old(self).deep_verify,
            final(self).auto_backup_on_insert == old(self).auto_backup_on_insert,
            final(self).remember_passphrase == (old(self).remember_passphrase
                && !old(self).paranoid_mode),
            final(self).paranoid_mode == old(self).paranoid_mode,
            final(self).restic_path == old(self).restic_path,
    {
        let n = self.trusted_drives.len();
        let mut i: usize = 0;
        while i < n
            invariant
                i <= n,
                n == old(self).trusted_drives@.len(),
                self.trusted_drives@.len() == n,
                forall|k: int| 0 <= k < i ==> drive_loaded(
                    old(self).trusted_drives@[k],
                    #[trigger] self.trusted_drives@[k],
                ),
                forall|k: int| i <= k < n ==> #[trigger] self.trusted_drives@[k] == old(self).trusted_drives@[k],
                self.same_settings(*old(self)),
            decreases n - i,
        {
            let mut d = self.trusted_drives.remove(i);
            let label = match &d.label {
                Some(l) => sanitize_label(l.as_str()),
                None => None,
            };
            d.label = label;
            let sources = match &d.backup_sources {
                Some(v) => Some(sanitize_sources(v)),
                None => None,
            };
            d.backup_sources = sources;
            self.trusted_drives.insert(i, d);
            i += 1;
        }
        self.backup_sources = sanitize_sources(&self.backup_sources);
        self.enforce_security_invariants();
        proof {
            let ds = self.trusted_drives@;
            let o = old(self).trusted_drives@;
            if unique_ids(o) {
                assert forall|a: int, b: int|
                    0 <= a < ds.len() && 0 <= b < ds.len() && a != b implies (#[trigger] ds[a]).drive_id@
                    != (#[trigger] ds[b]).drive_id@ by {
                    assert(drive_loaded(o[a], ds[a]));
                    assert(drive_loaded(o[b], ds[b]));
                }
            }
        }
    }
}

/// `s` trimmed, then lower-cased.
fn lower_trimmed(s: &str) -> (r: String)
    ensures
        r@ == lower_of(trim(s@)),
{
    let t = string_of(&trim_chars(&chars_of(s)));
    to_lower(t.as_str())
}

} // verus!
