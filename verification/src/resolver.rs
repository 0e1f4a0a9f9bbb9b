use vstd::prelude::*;

use crate::errors::SyncError;
use crate::text::{str_ends_with, suffix_of};

verus! {

/// What a direct stat of the expected path found.
#[derive(Debug, Clone, Copy, PartialEq, Eq)]
pub enum PathStat {
    /// The path does not exist.
    NotFound,
    /// The path exists, as a directory when the flag is set, else as a file.
    Found { is_dir: bool },
}

/// One entry of a directory listing: its name and its kind.
#[derive(Debug, Clone)]
pub struct DirEntryInfo {
    pub name: String,
    pub is_dir: bool,
}

/// A directory listing, taken at most once per sync pass and read-only from
/// then on; every resolution in the pass shares it.
#[derive(Debug, Clone)]
pub struct DirectorySnapshot {
    pub entries: Vec<DirEntryInfo>,
}

/// The resolver's verdict on one unit of work.
#[derive(Debug, Clone, PartialEq, Eq)]
pub enum FindResult {
    /// Nothing local corresponds to the work item.
    Missing,
    /// The expected path already exists with the expected kind.
    AlreadyExists,
    /// An entry with the same stable key exists under another display name.
    RenameCandidate(String),
}

/// The name suffix that identifies a work item's entry: the stable key for a
/// directory, the stable key with the archive extension for a file.
pub open spec fn expected_suffix(key: Seq<char>, is_dir: bool) -> Seq<char> {
    if is_dir {
        key
    } else {
        key + ".zip"@
    }
}

/// Whether the entry at one position matches a work item: its name ends with
/// the item's suffix and its kind is the expected one.
pub open spec fn matches_at(
    entries: Seq<DirEntryInfo>,
    i: int,
    suffix: Seq<char>,
    want_dir: bool,
) -> bool {
    suffix_of(suffix, entries[i].name@) && entries[i].is_dir == want_dir
}

/// Decides whether a unit of work already exists locally. The expected path
/// was stat'ed directly first; when it exists with the expected kind the
/// answer is `AlreadyExists` without consulting the snapshot at all — so a
/// path created earlier in the same pass resolves as existing with no
/// re-scan. When it exists with the wrong kind the output tree has been
/// tampered with: `KindMismatch`. Only when it does not exist is the shared
/// snapshot scanned for the first entry carrying the stable key under
/// another display name.
pub fn find_existing(
    stat: PathStat,
    snapshot: &DirectorySnapshot,
    converted_id: &str,
    is_dir: bool,
) -> (r: Result<FindResult, SyncError>)
    ensures
        (stat matches PathStat::Found { is_dir: k } && k == is_dir) ==> r == Ok::<
            FindResult,
            SyncError,
        >(FindResult::AlreadyExists),
        (stat matches PathStat::Found { is_dir: k } && k != is_dir) ==> (r matches Err(e) && e
            is KindMismatch),
        stat is NotFound ==> (r matches Ok(f) && !(f is AlreadyExists)),
        stat is NotFound ==> ((r == Ok::<FindResult, SyncError>(FindResult::Missing)) <==> (forall|
            i: int,
        |
            0 <= i < snapshot.entries@.len() ==> !matches_at(
                snapshot.entries@,
                i,
                expected_suffix(converted_id@, is_dir),
                is_dir,
            ))),
        stat is NotFound ==> (r matches Ok(FindResult::RenameCandidate(p)) ==> exists|i: int|
            0 <= i < snapshot.entries@.len() && matches_at(
                snapshot.entries@,
                i,
                expected_suffix(converted_id@, is_dir),
                is_dir,
            ) && p@ == snapshot.entries@[i].name@ && (forall|j: int|
                0 <= j < i ==> !matches_at(
                    snapshot.entries@,
                    j,
                    expected_suffix(converted_id@, is_dir),
                    is_dir,
                ))),
{
    match stat {
        PathStat::Found { is_dir: k } => {
            if k == is_dir {
                Ok(FindResult::AlreadyExists)
            } else {
                Err(SyncError::KindMismatch)
            }
        },
        PathStat::NotFound => {
            let mut sfx = String::new();
            sfx.append(converted_id);
            if !is_dir {
                sfx.append(".zip");
            }
            assert(sfx@ == expected_suffix(converted_id@, is_dir));
            let ghost suffix = sfx@;
            let n = snapshot.entries.len();
            let mut i: usize = 0;
            while i < n
                invariant
                    stat is NotFound,
                    n == snapshot.entries@.len(),
                    0 <= i <= n,
                    suffix == expected_suffix(converted_id@, is_dir),
                    sfx@ == suffix,
                    forall|j: int|
                        0 <= j < i ==> !matches_at(snapshot.entries@, j, suffix, is_dir),
                decreases n - i,
            {
                let entry = &snapshot.entries[i];
                if entry.is_dir == is_dir && str_ends_with(entry.name.as_str(), sfx.as_str()) {
                    proof {
                        assert(matches_at(snapshot.entries@, i as int, suffix, is_dir));
                    }
                    return Ok(FindResult::RenameCandidate(entry.name.clone()));
                }
                i += 1;
            }
            Ok(FindResult::Missing)
        },
    }
}

} // verus!
