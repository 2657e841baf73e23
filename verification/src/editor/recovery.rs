use vstd::prelude::*;

use crate::text::{file_name_of, path_file_name};

verus! {

/// Interval between auto-save recovery writes, in milliseconds.
pub const RECOVERY_INTERVAL_MS: u64 = 30_000;

/// The path `std::path::PathBuf::set_file_name` makes of `path` and `name`:
/// `path` with its file name replaced by `name` (or `name` pushed when it
/// has none).  It follows the path rules of the platform the crate is built
/// for and depends on its arguments alone.
pub uninterp spec fn with_file_name_of(path: Seq<char>, name: Seq<char>) -> Seq<char>;

/// `PathBuf::set_file_name` on `path`, made a `String` (`to_string_lossy`
/// changes nothing in a path built from UTF-8 parts): the result is named
/// `with_file_name_of`.
#[verifier::external_body]
fn path_with_file_name(path: &str, name: &str) -> (r: String)
    ensures
        r@ == with_file_name_of(path@, name@),
{
    let mut buf = std::path::PathBuf::from(path);
    buf.set_file_name(name);
    buf.to_string_lossy().to_string()
}

/// The path `std::path::Path::join` makes of a directory and a relative
/// name: the name inside that directory.  It follows the path rules of the
/// platform the crate is built for and depends on its arguments alone.
pub uninterp spec fn joined_path_of(dir: Seq<char>, name: Seq<char>) -> Seq<char>;

/// `Path::join` of `dir` and `name`, made a `String` (`to_string_lossy`
/// changes nothing in a path built from UTF-8 parts): the result is named
/// `joined_path_of`.
#[verifier::external_body]
fn path_join(dir: &str, name: &str) -> (r: String)
    ensures
        r@ == joined_path_of(dir@, name@),
{
    std::path::Path::new(dir).join(name).to_string_lossy().to_string()
}

/// The name of the recovery file for a document whose file name is
/// `file_name`: that name with `.recovery` appended.
pub open spec fn recovery_name(file_name: Option<Seq<char>>) -> Seq<char> {
    match file_name {
        Some(n) => n + ".recovery"@,
        None => ".recovery"@,
    }
}

/// The name of the recovery file for a document whose file name is
/// `file_name` (see `recovery_name`).
pub fn recovery_file_name(file_name: Option<String>) -> (r: String)
    ensures
        r@ == recovery_name(file_name.deep_view()),
{
    let mut name = match file_name {
        Some(n) => n,
        None => String::new(),
    };
    name.append(".recovery");
    name
}

/// Manages periodic auto-save snapshots so that unsaved work can be
/// recovered after a crash.  The recovery file is written alongside the
/// document's file (or in a configured place), with a `.recovery` extension
/// appended.  Times are milliseconds of a monotonic clock; the host reads
/// the clock and does the file work.
pub struct RecoveryManager {
    recovery_path: String,
    last_save: Option<u64>,
}

/// Whether a snapshot is due at `now`: the buffer is dirty and none was
/// written yet, or the last one is at least an interval old (a clock that
/// went backwards counts as no time elapsed).
pub open spec fn snapshot_due(last_save: Option<u64>, now: u64, is_dirty: bool) -> bool {
    is_dirty && match last_save {
        None => true,
        Some(t) => (if now >= t {
            now - t
        } else {
            0
        }) >= RECOVERY_INTERVAL_MS,
    }
}

impl RecoveryManager {
    /// Where the recovery file is written.
    pub closed spec fn spec_path(&self) -> Seq<char> {
        self.recovery_path@
    }

    /// When the last snapshot was written.
    pub closed spec fn spec_last_save(&self) -> Option<u64> {
        self.last_save
    }

    /// Construct a manager that writes its recovery file into the directory
    /// `recovery_dir`, under the name a document without a file name gets
    /// (see `recovery_name`).
    pub fn new(recovery_dir: String) -> (m: Self)
        ensures
            m.spec_path() == joined_path_of(recovery_dir@, recovery_name(None)),
            m.spec_last_save() is None,
    {
        let name = recovery_file_name(None);
        let recovery_path = path_join(recovery_dir.as_str(), name.as_str());
        RecoveryManager { recovery_path, last_save: None }
    }

    /// Construct a manager that derives the recovery path from the document
    /// file path by appending `.recovery` to its file name.
    pub fn for_file(file_path: &str) -> (m: Self)
        ensures
            m.spec_path() == with_file_name_of(file_path@, recovery_name(file_name_of(file_path@))),
            m.spec_last_save() is None,
    {
        let name = recovery_file_name(path_file_name(file_path));
        let recovery_path = path_with_file_name(file_path, name.as_str());
        RecoveryManager { recovery_path, last_save: None }
    }

    /// Called on every application tick with the clock reading and the
    /// buffer's dirty flag.  Returns whether a recovery snapshot is to be
    /// written now; when it is, `now` becomes the time of the last snapshot.
    pub fn tick(&mut self, now: u64, is_dirty: bool) -> (write: bool)
        ensures
            write == snapshot_due(old(self).spec_last_save(), now, is_dirty),
            final(self).spec_path() == old(self).spec_path(),
            final(self).spec_last_save() == if write {
                Some(now)
            } else {
                old(self).spec_last_save()
            },
    {
        if !is_dirty {
            return false;
        }
        let due = match self.last_save {
            Some(t) => now.saturating_sub(t) >= RECOVERY_INTERVAL_MS,
            None => true,
        };
        if due {
            self.last_save = Some(now);
        }
        due
    }

    /// The recovery file's path when it exists (the host checks the file
    /// system and passes `exists`).
    pub fn check_recovery(&self, exists: bool) -> (r: Option<&str>)
        ensures
            match r {
                Some(p) => exists && p@ == self.spec_path(),
                None => !exists,
            },
    {
        if exists {
            Some(self.recovery_path.as_str())
        } else {
            None
        }
    }

    /// The recovery file's path.
    pub fn recovery_path(&self) -> (r: &str)
        ensures
            r@ == self.spec_path(),
    {
        self.recovery_path.as_str()
    }
}

/// Two ticks less than an interval apart write at most one snapshot: after
/// a write at `t1`, a tick at `t2 < t1 + interval` writes nothing (a clock
/// that went backwards counts as no time elapsed).
pub proof fn law_no_snapshot_within_interval(t1: u64, t2: u64, is_dirty: bool)
    requires
        !is_dirty || t2 < t1 + RECOVERY_INTERVAL_MS,
    ensures
        !snapshot_due(Some(t1), t2, is_dirty),
{
}

/// A clean buffer never triggers a snapshot.
pub proof fn law_clean_buffer_no_snapshot(last: Option<u64>, now: u64)
    ensures
        !snapshot_due(last, now, false),
{
}

} // verus!
