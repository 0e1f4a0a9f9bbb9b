use vstd::prelude::*;

use crate::chapter::Chapter;
use crate::codec::{b64_encode, convert_uuid, uuid_bytes_of};
use crate::errors::SyncError;
use crate::groups::{group_ids_spec, resolved_names_spec, GroupCache};
use crate::naming::{chapter_filename, chapter_filename_spec, manga_dirname, manga_dirname_spec};
use crate::resolver::{find_existing, DirEntryInfo, DirectorySnapshot, FindResult, PathStat};
use crate::text::str_eq;

verus! {

/// The id of the work that contains a chapter: the first relationship of
/// kind `manga`. A chapter without one cannot be placed in the output tree.
pub fn manga_id_of(c: &Chapter) -> (r: Result<String, SyncError>)
    ensures
        r is Ok <==> exists|i: int|
            0 <= i < c.relationships@.len() && (#[trigger] c.relationships@[i]).type_field@
                == "manga"@,
        r matches Ok(id) ==> exists|i: int|
            0 <= i < c.relationships@.len() && (#[trigger] c.relationships@[i]).type_field@
                == "manga"@ && id@ == c.relationships@[i].id@ && (forall|j: int|
                0 <= j < i ==> (#[trigger] c.relationships@[j]).type_field@ != "manga"@),
        r matches Err(e) ==> e is MissingManga,
{
    let mut i: usize = 0;
    while i < c.relationships.len()
        invariant
            0 <= i <= c.relationships@.len(),
            forall|j: int| 0 <= j < i ==> (#[trigger] c.relationships@[j]).type_field@ != "manga"@,
        decreases c.relationships@.len() - i,
    {
        if str_eq(c.relationships[i].type_field.as_str(), "manga") {
            return Ok(c.relationships[i].id.clone());
        }
        i += 1;
    }
    Err(SyncError::MissingManga)
}

/// One chapter made ready for the batch: its id, its stable key, and the
/// archive filename it is expected under.
#[derive(Debug, Clone)]
pub struct ChapterWork {
    pub chapter_id: String,
    pub stable_key: String,
    pub filename: String,
    /// Whether the chapter is hosted elsewhere, which turns an empty page
    /// list into an intentional skip.
    pub externally_hosted: bool,
}

impl ChapterWork {
    /// The prepared fields follow from the chapter and the group cache
    /// alone: the key encodes the id, and the filename is composed from the
    /// attributes, the resolved group names and the key.
    pub open spec fn prepared_from(
        &self,
        c: Chapter,
        cache: Seq<(String, String)>,
        allow_question: bool,
    ) -> bool {
        &&& self.chapter_id@ == c.id@
        &&& uuid_bytes_of(c.id@) matches Some(bs) && self.stable_key@ == b64_encode(bs)
        &&& self.filename@ == chapter_filename_spec(
            c.attributes,
            resolved_names_spec(cache, group_ids_spec(c.relationships@)),
            self.stable_key@,
            allow_question,
        )
        &&& self.externally_hosted == (c.attributes.external_url is Some)
    }
}

/// Prepares one chapter for syncing: encodes its stable key — failing with
/// `InvalidIdentity` exactly when the id is not a well-formed UUID — looks
/// its credited groups up in the cache, and composes the archive filename.
pub fn prepare_chapter(c: &Chapter, groups: &GroupCache, allow_question: bool) -> (r: Result<
    ChapterWork,
    SyncError,
>)
    ensures
        r is Ok <==> uuid_bytes_of(c.id@) is Some,
        r matches Ok(w) ==> w.prepared_from(*c, groups.entries@, allow_question),
        r matches Err(e) ==> e is InvalidIdentity,
{
    let key = match convert_uuid(c.id.as_str()) {
        Ok(k) => k,
        Err(e) => {
            return Err(e);
        },
    };
    let ids = crate::groups::groups_in_chapter(c);
    let names = groups.resolved_names(&ids);
    let filename = chapter_filename(&c.attributes, &names, key.as_str(), allow_question);
    Ok(
        ChapterWork {
            chapter_id: c.id.clone(),
            stable_key: key,
            filename,
            externally_hosted: c.attributes.external_url.is_some(),
        },
    )
}

/// What the batch asks its driver to do next.
pub enum BatchRequest {
    /// Stat the expected archive path of the current chapter.
    Stat { path: String },
    /// List the output directory, once per batch.
    Scan,
    /// Run the download pipeline for the current chapter into this path.
    Download { chapter_id: String, path: String },
    /// Rename a stale entry to the current expected name.
    Rename { from: String, to: String },
    /// The batch is over, with this outcome.
    Finished { result: Result<(), SyncError> },
}

/// Which answer the batch is waiting for.
#[derive(Debug, Clone, PartialEq, Eq)]
pub enum Awaiting {
    Stat,
    Scan,
    Download,
    Rename { from: String },
    Done,
}

/// The waiting state a batch enters once its current chapter is complete:
/// the next chapter's stat, or the end of the batch.
pub open spec fn next_awaiting(b: BatchSync) -> Awaiting {
    if b.idx == b.items@.len() {
        Awaiting::Done
    } else {
        Awaiting::Stat
    }
}

/// The orchestrator of one sync batch, as a step machine: the driver asks
/// `next_request` what to do, performs the one stat, scan, download or
/// rename it names, and reports the outcome back. Chapters are taken
/// strictly in input order, one at a time; the directory snapshot is taken
/// at most once per batch and reused for every later resolution.
pub struct BatchSync {
    pub items: Vec<ChapterWork>,
    pub idx: usize,
    pub snapshot: Option<DirectorySnapshot>,
    pub rename_enabled: bool,
    pub continue_on_error: bool,
    pub awaiting: Awaiting,
    /// Chapters that failed under `continue_on_error`, with their errors:
    /// isolated, reported, never silently dropped.
    pub failures: Vec<(String, SyncError)>,
    /// The error that aborted the whole batch, if one did.
    pub fatal: Option<SyncError>,
}

impl BatchSync {
    /// The machine's well-formedness: the cursor stays in range and every
    /// waiting state points at a current chapter.
    pub open spec fn wf(&self) -> bool {
        &&& self.idx <= self.items@.len()
        &&& match self.awaiting {
            Awaiting::Done => true,
            Awaiting::Scan => self.idx < self.items@.len() && self.snapshot is None,
            _ => self.idx < self.items@.len(),
        }
    }

    /// A fresh batch over prepared chapters: nothing scanned, nothing
    /// failed, the first chapter (if any) about to be stat'ed.
    pub fn new(items: Vec<ChapterWork>, rename_enabled: bool, continue_on_error: bool) -> (r:
        BatchSync)
        ensures
            r.wf(),
            r.items == items,
            r.idx == 0,
            r.snapshot is None,
            r.rename_enabled == rename_enabled,
            r.continue_on_error == continue_on_error,
            r.failures@.len() == 0,
            r.fatal is None,
            r.awaiting == (if items@.len() == 0 {
                Awaiting::Done
            } else {
                Awaiting::Stat
            }),
    {
        let awaiting = if items.len() == 0 {
            Awaiting::Done
        } else {
            Awaiting::Stat
        };
        BatchSync {
            items,
            idx: 0,
            snapshot: None,
            rename_enabled,
            continue_on_error,
            awaiting,
            failures: Vec::new(),
            fatal: None,
        }
    }

    /// What the driver should do next. A scan is only ever requested while
    /// no snapshot is held, so the directory is listed at most once per
    /// batch.
    pub fn next_request(&self) -> (r: BatchRequest)
        requires
            self.wf(),
        ensures
            self.awaiting is Stat ==> (r matches BatchRequest::Stat { path } && path@
                == self.items@[self.idx as int].filename@),
            self.awaiting is Scan ==> (r is Scan && self.snapshot is None),
            self.awaiting is Download ==> (r matches BatchRequest::Download { chapter_id, path }
                && chapter_id@ == self.items@[self.idx as int].chapter_id@ && path@
                == self.items@[self.idx as int].filename@),
            self.awaiting matches Awaiting::Rename { from } ==> (r matches BatchRequest::Rename {
                from: f,
                to,
            } && f@ == from@ && to@ == self.items@[self.idx as int].filename@),
            self.awaiting is Done ==> (r matches BatchRequest::Finished { result } && (
            self.fatal matches Some(e) ==> result == Err::<(), SyncError>(e)) && (self.fatal
                is None ==> result == Ok::<(), SyncError>(()))),
    {
        match &self.awaiting {
            Awaiting::Stat => BatchRequest::Stat { path: self.items[self.idx].filename.clone() },
            Awaiting::Scan => BatchRequest::Scan,
            Awaiting::Download => BatchRequest::Download {
                chapter_id: self.items[self.idx].chapter_id.clone(),
                path: self.items[self.idx].filename.clone(),
            },
            Awaiting::Rename { from } => BatchRequest::Rename {
                from: from.clone(),
                to: self.items[self.idx].filename.clone(),
            },
            Awaiting::Done => {
                let result = match &self.fatal {
                    Some(e) => Err(e.duplicate()),
                    None => Ok(()),
                };
                BatchRequest::Finished { result }
            },
        }
    }

    /// Moves past the current chapter.
    fn advance(&mut self)
        requires
            old(self).idx < old(self).items@.len(),
        ensures
            final(self).idx == old(self).idx + 1,
            final(self).awaiting == (if old(self).idx + 1 == old(self).items@.len() {
                Awaiting::Done
            } else {
                Awaiting::Stat
            }),
            final(self).items == old(self).items,
            final(self).snapshot == old(self).snapshot,
            final(self).failures == old(self).failures,
            final(self).fatal == old(self).fatal,
            final(self).rename_enabled == old(self).rename_enabled,
            final(self).continue_on_error == old(self).continue_on_error,
            final(self).wf(),
    {
        let n = self.items.len();
        self.idx = self.idx + 1;
        self.awaiting = if self.idx == n {
            Awaiting::Done
        } else {
            Awaiting::Stat
        };
    }

    /// Decides the current chapter from a resolver verdict reached through
    /// the snapshot: a missing chapter is downloaded; an existing one is
    /// skipped; a stale name is renamed when renaming is enabled and left
    /// untouched otherwise.
    fn decide(&mut self, found: FindResult)
        requires
            old(self).idx < old(self).items@.len(),
        ensures
            final(self).items == old(self).items,
            final(self).snapshot == old(self).snapshot,
            final(self).failures == old(self).failures,
            final(self).fatal == old(self).fatal,
            final(self).rename_enabled == old(self).rename_enabled,
            final(self).continue_on_error == old(self).continue_on_error,
            final(self).wf(),
            found is Missing ==> (final(self).awaiting is Download && final(self).idx == old(
                self,
            ).idx),
            found is AlreadyExists ==> (final(self).idx == old(self).idx + 1
                && final(self).awaiting == next_awaiting(*final(self))),
            found matches FindResult::RenameCandidate(p) ==> ((old(self).rename_enabled ==> (
            final(self).awaiting matches Awaiting::Rename { from } && from@ == p@
                && final(self).idx == old(self).idx)) && (!old(self).rename_enabled ==> (
            final(self).idx == old(self).idx + 1 && final(self).awaiting == next_awaiting(
                *final(self),
            )))),
    {
        match found {
            FindResult::Missing => {
                self.awaiting = Awaiting::Download;
            },
            FindResult::AlreadyExists => {
                self.advance();
            },
            FindResult::RenameCandidate(p) => {
                if self.rename_enabled {
                    self.awaiting = Awaiting::Rename { from: p };
                } else {
                    self.advance();
                }
            },
        }
    }

    /// Takes the stat of the current chapter's expected path. A path that
    /// already exists with the expected kind is skipped outright — the
    /// snapshot is not consulted, let alone re-scanned. A path of the wrong
    /// kind aborts the batch: the output tree has been tampered with. A
    /// missing path is resolved against the snapshot, which is requested
    /// first if the batch holds none yet.
    pub fn on_stat(&mut self, stat: PathStat)
        requires
            old(self).wf(),
            old(self).awaiting is Stat,
        ensures
            final(self).wf(),
            final(self).items == old(self).items,
            final(self).snapshot == old(self).snapshot,
            final(self).failures == old(self).failures,
            final(self).rename_enabled == old(self).rename_enabled,
            final(self).continue_on_error == old(self).continue_on_error,
            (stat matches PathStat::Found { is_dir } && !is_dir) ==> (final(self).idx == old(
                self,
            ).idx + 1 && final(self).fatal == old(self).fatal && final(self).awaiting
                == next_awaiting(*final(self))),
            (stat matches PathStat::Found { is_dir } && is_dir) ==> (final(self).awaiting is Done
                && (final(self).fatal matches Some(e) && e is KindMismatch)),
            (stat is NotFound && old(self).snapshot is None) ==> (final(self).awaiting is Scan
                && final(self).idx == old(self).idx && final(self).fatal == old(self).fatal),
            stat is NotFound ==> (old(self).snapshot matches Some(snap) ==> (final(self).fatal
                == old(self).fatal && exists|r: FindResult|
                resolver_verdict(
                    snap.entries@,
                    old(self).items@[old(self).idx as int].stable_key@,
                    r,
                ) && decided(*old(self), *final(self), r))),
    {
        match stat {
            PathStat::Found { is_dir } => {
                if is_dir {
                    self.fatal = Some(SyncError::KindMismatch);
                    self.awaiting = Awaiting::Done;
                } else {
                    self.advance();
                }
            },
            PathStat::NotFound => {
                let resolved: Option<FindResult> = match &self.snapshot {
                    None => None,
                    Some(snap) => Some(
                        find_existing(
                            PathStat::NotFound,
                            snap,
                            self.items[self.idx].stable_key.as_str(),
                            false,
                        ).unwrap(),
                    ),
                };
                match resolved {
                    None => {
                        self.awaiting = Awaiting::Scan;
                    },
                    Some(found) => {
                        let ghost f = found;
                        proof {
                            assert(resolver_verdict(
                                old(self).snapshot->0.entries@,
                                old(self).items@[old(self).idx as int].stable_key@,
                                f,
                            ));
                        }
                        self.decide(found);
                        proof {
                            assert(decided(*old(self), *self, f));
                        }
                    },
                }
            },
        }
    }

    /// Takes the one directory listing of the batch, keeps it for every
    /// later chapter, and resolves the current chapter against it.
    pub fn on_scan(&mut self, entries: Vec<DirEntryInfo>)
        requires
            old(self).wf(),
            old(self).awaiting is Scan,
        ensures
            final(self).wf(),
            final(self).items == old(self).items,
            final(self).failures == old(self).failures,
            final(self).fatal == old(self).fatal,
            final(self).rename_enabled == old(self).rename_enabled,
            final(self).continue_on_error == old(self).continue_on_error,
            final(self).snapshot matches Some(snap) && snap.entries == entries,
            exists|r: FindResult|
                resolver_verdict(
                    entries@,
                    old(self).items@[old(self).idx as int].stable_key@,
                    r,
                ) && decided(*old(self), *final(self), r),
    {
        let snap = DirectorySnapshot { entries };
        let found = find_existing(
            PathStat::NotFound,
            &snap,
            self.items[self.idx].stable_key.as_str(),
            false,
        ).unwrap();
        let ghost f = found;
        proof {
            assert(snap.entries@ == entries@);
            assert(resolver_verdict(
                snap.entries@,
                old(self).items@[old(self).idx as int].stable_key@,
                f,
            ));
        }
        self.snapshot = Some(snap);
        self.decide(found);
        proof {
            assert(decided(*old(self), *self, f));
        }
    }

    /// Takes the outcome of the current chapter's download. A failure is
    /// isolated and recorded when the batch continues on error, and aborts
    /// the whole batch — leaving later chapters unprocessed — when it does
    /// not.
    pub fn on_download(&mut self, outcome: Result<(), SyncError>)
        requires
            old(self).wf(),
            old(self).awaiting is Download,
        ensures
            final(self).wf(),
            final(self).items == old(self).items,
            final(self).snapshot == old(self).snapshot,
            final(self).rename_enabled == old(self).rename_enabled,
            final(self).continue_on_error == old(self).continue_on_error,
            outcome is Ok ==> (final(self).idx == old(self).idx + 1 && final(self).failures == old(
                self,
            ).failures && final(self).fatal == old(self).fatal && final(self).awaiting
                == next_awaiting(*final(self))),
            outcome matches Err(e) ==> (old(self).continue_on_error ==> (final(self).idx == old(
                self,
            ).idx + 1 && final(self).failures@ == old(self).failures@.push(
                (old(self).items@[old(self).idx as int].chapter_id, e),
            ) && final(self).fatal == old(self).fatal && final(self).awaiting == next_awaiting(
                *final(self),
            ))),
            outcome matches Err(e) ==> (!old(self).continue_on_error ==> (final(self).awaiting
                is Done && final(self).fatal == Some(e) && final(self).failures == old(
                self,
            ).failures)),
    {
        match outcome {
            Ok(_) => {
                self.advance();
            },
            Err(e) => {
                if self.continue_on_error {
                    let id = self.items[self.idx].chapter_id.clone();
                    self.failures.push((id, e));
                    self.advance();
                } else {
                    self.fatal = Some(e);
                    self.awaiting = Awaiting::Done;
                }
            },
        }
    }

    /// Takes the outcome of a rename of a stale entry. A failed rename
    /// aborts the batch; a successful one completes the current chapter.
    pub fn on_rename(&mut self, outcome: Result<(), SyncError>)
        requires
            old(self).wf(),
            old(self).awaiting is Rename,
        ensures
            final(self).wf(),
            final(self).items == old(self).items,
            final(self).snapshot == old(self).snapshot,
            final(self).failures == old(self).failures,
            final(self).rename_enabled == old(self).rename_enabled,
            final(self).continue_on_error == old(self).continue_on_error,
            outcome is Ok ==> (final(self).idx == old(self).idx + 1 && final(self).fatal == old(
                self,
            ).fatal && final(self).awaiting == next_awaiting(*final(self))),
            outcome matches Err(e) ==> (final(self).awaiting is Done && final(self).fatal == Some(
                e,
            )),
    {
        match outcome {
            Ok(_) => {
                self.advance();
            },
            Err(e) => {
                self.fatal = Some(e);
                self.awaiting = Awaiting::Done;
            },
        }
    }
}

/// What the resolver can say about the current chapter against a snapshot
/// whose expected path does not exist: it is missing, or the first matching
/// stale entry was found.
pub open spec fn resolver_verdict(
    entries: Seq<DirEntryInfo>,
    key: Seq<char>,
    r: FindResult,
) -> bool {
    match r {
        FindResult::Missing => forall|i: int|
            0 <= i < entries.len() ==> !crate::resolver::matches_at(
                entries,
                i,
                crate::resolver::expected_suffix(key, false),
                false,
            ),
        FindResult::AlreadyExists => false,
        FindResult::RenameCandidate(p) => exists|i: int|
            0 <= i < entries.len() && crate::resolver::matches_at(
                entries,
                i,
                crate::resolver::expected_suffix(key, false),
                false,
            ) && p@ == entries[i].name@ && (forall|j: int|
                0 <= j < i ==> !crate::resolver::matches_at(
                    entries,
                    j,
                    crate::resolver::expected_suffix(key, false),
                    false,
                )),
    }
}

/// How the batch reacts to a resolver verdict on the current chapter: a
/// missing one is downloaded next; an existing or rename-disabled stale one
/// is complete and the batch moves on; a stale one is renamed when renaming
/// is enabled.
pub open spec fn decided(before: BatchSync, after: BatchSync, r: FindResult) -> bool {
    match r {
        FindResult::Missing => after.awaiting is Download && after.idx == before.idx,
        FindResult::AlreadyExists => after.idx == before.idx + 1 && after.awaiting
            == next_awaiting(after),
        FindResult::RenameCandidate(p) => if before.rename_enabled {
            &&& after.awaiting matches Awaiting::Rename { from } && from@ == p@
            &&& after.idx == before.idx
        } else {
            after.idx == before.idx + 1 && after.awaiting == next_awaiting(after)
        },
    }
}

/// Prepares a whole batch of chapters against one group cache, in input
/// order. Fails with `InvalidIdentity` — preparing nothing — exactly when
/// some chapter's id is not a well-formed UUID.
pub fn sync_chapters(
    chapters: &Vec<Chapter>,
    groups: &GroupCache,
    allow_question: bool,
    rename_enabled: bool,
    continue_on_error: bool,
) -> (r: Result<BatchSync, SyncError>)
    ensures
        r is Ok <==> (forall|i: int|
            0 <= i < chapters@.len() ==> uuid_bytes_of((#[trigger] chapters@[i]).id@) is Some),
        r matches Ok(b) ==> b.wf() && b.items@.len() == chapters@.len() && (forall|i: int|
            0 <= i < chapters@.len() ==> (#[trigger] b.items@[i]).prepared_from(
                chapters@[i],
                groups.entries@,
                allow_question,
            )) && b.rename_enabled == rename_enabled && b.continue_on_error == continue_on_error
            && b.idx == 0 && b.snapshot is None && b.failures@.len() == 0 && b.fatal is None,
        r matches Err(e) ==> e is InvalidIdentity,
{
    let mut items: Vec<ChapterWork> = Vec::new();
    let mut i: usize = 0;
    while i < chapters.len()
        invariant
            0 <= i <= chapters@.len(),
            items@.len() == i,
            forall|j: int|
                0 <= j < i ==> (#[trigger] items@[j]).prepared_from(
                    chapters@[j],
                    groups.entries@,
                    allow_question,
                ),
            forall|j: int| 0 <= j < i ==> uuid_bytes_of((#[trigger] chapters@[j]).id@) is Some,
        decreases chapters@.len() - i,
    {
        match prepare_chapter(&chapters[i], groups, allow_question) {
            Ok(w) => {
                items.push(w);
            },
            Err(e) => {
                return Err(e);
            },
        }
        i += 1;
    }
    Ok(BatchSync::new(items, rename_enabled, continue_on_error))
}

/// Prepares the batch for one single chapter. Failures are never continued
/// past: the one chapter is the whole batch.
pub fn sync_single_chapter(
    chapter: &Chapter,
    groups: &GroupCache,
    allow_question: bool,
    rename_enabled: bool,
) -> (r: Result<BatchSync, SyncError>)
    ensures
        r is Ok <==> uuid_bytes_of(chapter.id@) is Some,
        r matches Ok(b) ==> b.wf() && b.items@.len() == 1 && b.items@[0].prepared_from(
            *chapter,
            groups.entries@,
            allow_question,
        ) && !b.continue_on_error && b.rename_enabled == rename_enabled && b.idx == 0 && b.snapshot
            is None && b.fatal is None && b.failures@.len() == 0,
        r matches Err(e) ==> e is InvalidIdentity,
{
    let w = match prepare_chapter(chapter, groups, allow_question) {
        Ok(w) => w,
        Err(e) => {
            return Err(e);
        },
    };
    let mut items: Vec<ChapterWork> = Vec::new();
    items.push(w);
    Ok(BatchSync::new(items, rename_enabled, false))
}

/// How the output directory of one work is brought up to date.
#[derive(Debug, Clone, PartialEq, Eq)]
pub enum DirAction {
    /// Create the expected directory.
    Create,
    /// The expected directory already exists: use it.
    UseExisting,
    /// Rename this stale directory to the expected name, then use it.
    Rename { from: String },
    /// Renaming is disabled: keep using the stale directory as it is.
    UseStale { path: String },
}

/// Chooses the action for a work's output directory after resolution: create
/// it when missing, use it when present, and rename a stale one only when
/// renaming is enabled — otherwise the stale name stays in use.
pub fn plan_dir(found: FindResult, rename_enabled: bool) -> (r: DirAction)
    ensures
        found is Missing ==> r == DirAction::Create,
        found is AlreadyExists ==> r == DirAction::UseExisting,
        found matches FindResult::RenameCandidate(p) ==> r == (if rename_enabled {
            DirAction::Rename { from: p }
        } else {
            DirAction::UseStale { path: p }
        }),
{
    match found {
        FindResult::Missing => DirAction::Create,
        FindResult::AlreadyExists => DirAction::UseExisting,
        FindResult::RenameCandidate(p) => {
            if rename_enabled {
                DirAction::Rename { from: p }
            } else {
                DirAction::UseStale { path: p }
            }
        },
    }
}

/// Derives the output directory name of one work from its id and its title:
/// the sanitized title and the stable key. Fails with `MissingTitle` when no
/// title is available and with `InvalidIdentity` when the id is not a
/// well-formed UUID.
pub fn sync_manga(manga_id: &str, title: &Option<String>, allow_question: bool) -> (r: Result<
    String,
    SyncError,
>)
    ensures
        r is Ok <==> (title is Some && uuid_bytes_of(manga_id@) is Some),
        r matches Ok(d) ==> (title matches Some(t) && uuid_bytes_of(manga_id@) matches Some(bs)
            && d@ == manga_dirname_spec(t@, b64_encode(bs), allow_question)),
        title is None ==> (r matches Err(e) && e is MissingTitle),
        (title is Some && uuid_bytes_of(manga_id@) is None) ==> (r matches Err(e) && e
            is InvalidIdentity),
{
    let t = match title {
        Some(t) => t,
        None => {
            return Err(SyncError::MissingTitle);
        },
    };
    let key = match convert_uuid(manga_id) {
        Ok(k) => k,
        Err(e) => {
            return Err(e);
        },
    };
    Ok(manga_dirname(t.as_str(), key.as_str(), allow_question))
}

} // verus!
