//! Which old archives the retention cleaner deletes.

use vstd::prelude::*;
use crate::error::BackupError;

verus! {

broadcast use vstd::string::axiom_spec_iter;

/// Nanoseconds in a second.
pub const NANOS_PER_SECOND: u32 = 1_000_000_000;

/// Seconds in a day.
pub const SECONDS_PER_DAY: u64 = 86400;

/// Archives carry names that start with this.
pub const ARCHIVE_PREFIX: &'static str = "BACKUP_";

/// Archives carry names that end with this.
pub const ARCHIVE_SUFFIX: &'static str = ".zip";

/// An instant: whole seconds since the Unix epoch (negative before it) and
/// the nanoseconds past that second.
#[derive(PartialEq, Eq, Structural, Clone, Copy, Debug)]
pub struct Timestamp {
    pub secs: i64,
    pub nanos: u32,
}

impl Timestamp {
    pub open spec fn wf(&self) -> bool {
        self.nanos < NANOS_PER_SECOND
    }

    /// Nanoseconds since the epoch.
    pub open spec fn value(&self) -> int {
        self.secs * 1_000_000_000 + self.nanos
    }
}

/// The instant `secs` seconds and `nanos` nanoseconds after the epoch, or
/// before it where `before_epoch`; `None` where the seconds do not fit.
pub fn timestamp_from_epoch(before_epoch: bool, secs: u64, nanos: u32) -> (r: Option<Timestamp>)
    requires
        nanos < NANOS_PER_SECOND,
    ensures
        r matches Some(t) ==> t.wf() && t.value() == (if before_epoch {
            -(secs * 1_000_000_000 + nanos)
        } else {
            secs * 1_000_000_000 + nanos
        }),
        r is Some <==> secs <= i64::MAX,
{
    if secs > i64::MAX as u64 {
        return None;
    }
    let s = secs as i64;
    if !before_epoch {
        Some(Timestamp { secs: s, nanos })
    } else if nanos == 0 {
        Some(Timestamp { secs: -s, nanos: 0 })
    } else {
        Some(Timestamp { secs: -s - 1, nanos: NANOS_PER_SECOND - nanos })
    }
}

/// The retention window in seconds; `None` where `keep_days` is zero or
/// negative, which keeps every archive.
pub fn retention_window(keep_days: i32) -> (r: Option<u64>)
    ensures
        r is None <==> keep_days <= 0,
        r matches Some(w) ==> w == keep_days * 86400,
{
    if keep_days <= 0 {
        None
    } else {
        Some(keep_days as u64 * SECONDS_PER_DAY)
    }
}

/// The instant `window_secs` seconds before `now`: archives last modified at
/// or before it are expired. Fails where that instant cannot be represented.
pub fn cutoff_instant(now: Timestamp, window_secs: u64) -> (r: Result<Timestamp, BackupError>)
    requires
        now.wf(),
    ensures
        r is Ok <==> now.secs - window_secs >= i64::MIN,
        r matches Ok(c) ==> c.wf() && c.value() == now.value() - window_secs * 1_000_000_000,
        r matches Err(e) ==> e is CutoffOutOfRange,
{
    let secs: i128 = now.secs as i128 - window_secs as i128;
    if secs < i64::MIN as i128 {
        Err(BackupError::CutoffOutOfRange)
    } else {
        Ok(Timestamp { secs: secs as i64, nanos: now.nanos })
    }
}

/// `p` begins `s`.
pub open spec fn has_prefix(s: Seq<char>, p: Seq<char>) -> bool {
    p.len() <= s.len() && s.take(p.len() as int) == p
}

/// `p` ends `s`.
pub open spec fn has_suffix(s: Seq<char>, p: Seq<char>) -> bool {
    p.len() <= s.len() && s.skip(s.len() - p.len()) == p
}

/// An archive's name: `BACKUP_*.zip`.
pub open spec fn is_archive_name(name: Seq<char>) -> bool {
    has_prefix(name, ARCHIVE_PREFIX@) && has_suffix(name, ARCHIVE_SUFFIX@)
}

fn chars_of(s: &str) -> (r: Vec<char>)
    ensures
        r@ == s@,
{
    let mut r: Vec<char> = Vec::new();
    for c in it: s.chars()
        invariant
            it.seq() == s@,
            r@ == it.seq().take(it.index() as int),
    {
        r.push(c);
        assert(r@ =~= it.seq().take(it.index() + 1));
    }
    assert(s@.take(s@.len() as int) =~= s@);
    r
}

/// Whether `p` occurs in `s` at position `at`.
fn occurs_at(s: &Vec<char>, p: &Vec<char>, at: usize) -> (r: bool)
    requires
        at + p@.len() <= s@.len(),
    ensures
        r == (s@.subrange(at as int, at + p@.len()) == p@),
{
    let n: usize = s.len();
    let mut i: usize = 0;
    while i < p.len()
        invariant
            n == s@.len(),
            i <= p@.len(),
            at + p@.len() <= s@.len(),
            forall|k: int| 0 <= k < i ==> s@[at + k] == p@[k],
        decreases p@.len() - i,
    {
        assert(at + i < s@.len());
        if s[at + i] != p[i] {
            assert(s@.subrange(at as int, at + p@.len())[i as int] != p@[i as int]);
            return false;
        }
        i = i + 1;
    }
    assert(s@.subrange(at as int, at + p@.len()) =~= p@);
    true
}

/// Whether the name follows the archive naming convention `BACKUP_*.zip`.
pub fn is_backup_archive_name(name: &str) -> (r: bool)
    ensures
        r == is_archive_name(name@),
{
    let s = chars_of(name);
    let prefix = chars_of(ARCHIVE_PREFIX);
    let suffix = chars_of(ARCHIVE_SUFFIX);
    if prefix.len() > s.len() || suffix.len() > s.len() {
        return false;
    }
    let starts = occurs_at(&s, &prefix, 0);
    let ends = occurs_at(&s, &suffix, s.len() - suffix.len());
    assert(s@.subrange(0, prefix@.len() as int) =~= s@.take(prefix@.len() as int));
    assert(s@.subrange((s@.len() - suffix@.len()) as int, s@.len() as int) =~= s@.skip(
        s@.len() - suffix@.len(),
    ));
    starts && ends
}

/// What the cleaner knows of one directory entry: whether it is a regular
/// file, its name and its last modification, where these could be read.
pub struct EntryInfo {
    pub is_file: bool,
    pub name: Option<String>,
    pub modified: Option<Timestamp>,
}

/// An entry is deleted when it is a regular file with an archive's name
/// whose last modification is at or before the cutoff.
pub open spec fn expired(entry: EntryInfo, cutoff: Timestamp) -> bool {
    &&& entry.is_file
    &&& entry.name matches Some(n) && is_archive_name(n@)
    &&& entry.modified matches Some(m) && m.value() <= cutoff.value()
}

proof fn lemma_value_order(a: Timestamp, b: Timestamp)
    requires
        a.wf(),
        b.wf(),
    ensures
        a.value() <= b.value() <==> (a.secs < b.secs || (a.secs == b.secs && a.nanos <= b.nanos)),
{
    assert(a.secs < b.secs ==> a.value() < b.value()) by (nonlinear_arith)
        requires
            a.nanos < 1_000_000_000,
            b.nanos >= 0,
            a.value() == a.secs * 1_000_000_000 + a.nanos,
            b.value() == b.secs * 1_000_000_000 + b.nanos,
    ;
    assert(a.secs > b.secs ==> a.value() > b.value()) by (nonlinear_arith)
        requires
            b.nanos < 1_000_000_000,
            a.nanos >= 0,
            a.value() == a.secs * 1_000_000_000 + a.nanos,
            b.value() == b.secs * 1_000_000_000 + b.nanos,
    ;
}

/// Whether the cleaner deletes the entry.
pub fn should_delete(entry: &EntryInfo, cutoff: &Timestamp) -> (r: bool)
    requires
        cutoff.wf(),
        entry.modified matches Some(m) ==> m.wf(),
    ensures
        r == expired(*entry, *cutoff),
{
    if !entry.is_file {
        return false;
    }
    let named = match &entry.name {
        Some(n) => is_backup_archive_name(n.as_str()),
        None => false,
    };
    if !named {
        return false;
    }
    match &entry.modified {
        Some(m) => {
            proof {
                lemma_value_order(*m, *cutoff);
            }
            m.secs < cutoff.secs || (m.secs == cutoff.secs && m.nanos <= cutoff.nanos)
        },
        None => false,
    }
}

} // verus!
