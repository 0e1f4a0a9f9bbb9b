use manga_syncer::batch::{
    manga_id_of, plan_dir, sync_chapters, sync_manga, sync_single_chapter, BatchRequest, DirAction,
};
use manga_syncer::chapter::{Chapter, ChapterAttributes, Relationship};
use manga_syncer::errors::SyncError;
use manga_syncer::groups::{groups_in_chapter, GroupCache};
use manga_syncer::naming::{english_or_first, LocalizedString};
use manga_syncer::pagination::{filter_chapters, Pagination, PAGE_SIZE};
use manga_syncer::resolver::{
    find_existing, DirEntryInfo, DirectorySnapshot, FindResult, PathStat,
};

const CHAPTER_ID: &str = "f110d48a-8461-428e-bbcb-5ae3c0d53d25";
const CHAPTER_KEY: &str = "8RDUioRhQo67y1rjwNU9JQ";

fn attrs(volume: Option<&str>, number: Option<&str>, title: Option<&str>) -> ChapterAttributes {
    ChapterAttributes {
        volume: volume.map(str::to_string),
        chapter: number.map(str::to_string),
        title: title.map(str::to_string),
        external_url: None,
    }
}

fn chapter(id: &str, number: &str, title: Option<&str>) -> Chapter {
    Chapter {
        id: id.to_string(),
        attributes: attrs(None, Some(number), title),
        relationships: Vec::new(),
    }
}

fn snapshot(names: &[(&str, bool)]) -> DirectorySnapshot {
    DirectorySnapshot {
        entries: names
            .iter()
            .map(|(name, is_dir)| DirEntryInfo { name: name.to_string(), is_dir: *is_dir })
            .collect(),
    }
}

#[test]
fn resolve_prefers_direct_stat_over_snapshot() {
    // The path was just created: the stat alone decides, the snapshot —
    // which still lists only the stale name — is not consulted again.
    let snap = snapshot(&[(&format!("OldTitle - {}.zip", CHAPTER_KEY), false)]);
    let found = find_existing(PathStat::Found { is_dir: false }, &snap, CHAPTER_KEY, false);
    assert_eq!(found, Ok(FindResult::AlreadyExists));
}

#[test]
fn resolve_wrong_kind_is_kind_mismatch() {
    let snap = snapshot(&[]);
    let found = find_existing(PathStat::Found { is_dir: true }, &snap, CHAPTER_KEY, false);
    assert_eq!(found, Err(SyncError::KindMismatch));
}

#[test]
fn resolve_missing_when_nothing_matches() {
    let snap = snapshot(&[("Unrelated - ABC.zip", false), ("dir - DEF", true)]);
    let found = find_existing(PathStat::NotFound, &snap, CHAPTER_KEY, false);
    assert_eq!(found, Ok(FindResult::Missing));
}

#[test]
fn resolve_finds_rename_candidate_by_key_suffix() {
    let stale = format!("OldTitle - {}.zip", CHAPTER_KEY);
    let snap = snapshot(&[("Other - X.zip", false), (&stale, false)]);
    let found = find_existing(PathStat::NotFound, &snap, CHAPTER_KEY, false);
    assert_eq!(found, Ok(FindResult::RenameCandidate(stale)));
}

#[test]
fn resolve_ignores_entries_of_wrong_kind() {
    let stale_dir = format!("OldTitle - {}", CHAPTER_KEY);
    let snap = snapshot(&[(&stale_dir, true)]);
    let found = find_existing(PathStat::NotFound, &snap, CHAPTER_KEY, false);
    assert_eq!(found, Ok(FindResult::Missing));
    let found_dir = find_existing(PathStat::NotFound, &snap, CHAPTER_KEY, true);
    assert_eq!(found_dir, Ok(FindResult::RenameCandidate(stale_dir)));
}

#[test]
fn rename_candidate_resolved_and_renamed() {
    // An existing stale entry is offered for renaming when renaming is on,
    // and the batch then asks for exactly that rename.
    let groups = GroupCache::new();
    let c = chapter(CHAPTER_ID, "3", Some("NewTitle"));
    let mut batch = sync_chapters(&vec![c], &groups, false, true, false).unwrap();
    let expected = format!("Ch. 3 NewTitle - {}.zip", CHAPTER_KEY);
    match batch.next_request() {
        BatchRequest::Stat { path } => assert_eq!(path, expected),
        _ => panic!("first request must be a stat"),
    }
    batch.on_stat(PathStat::NotFound);
    assert!(matches!(batch.next_request(), BatchRequest::Scan));
    let stale = format!("OldTitle - {}.zip", CHAPTER_KEY);
    batch.on_scan(vec![DirEntryInfo { name: stale.clone(), is_dir: false }]);
    match batch.next_request() {
        BatchRequest::Rename { from, to } => {
            assert_eq!(from, stale);
            assert_eq!(to, expected);
        }
        _ => panic!("a rename must be requested"),
    }
    batch.on_rename(Ok(()));
    match batch.next_request() {
        BatchRequest::Finished { result } => assert_eq!(result, Ok(())),
        _ => panic!("the batch must be finished"),
    }
}

#[test]
fn failed_rename_aborts_batch() {
    let groups = GroupCache::new();
    let c = chapter(CHAPTER_ID, "3", Some("NewTitle"));
    let mut batch = sync_chapters(&vec![c], &groups, false, true, true).unwrap();
    batch.on_stat(PathStat::NotFound);
    let stale = format!("OldTitle - {}.zip", CHAPTER_KEY);
    batch.on_scan(vec![DirEntryInfo { name: stale, is_dir: false }]);
    assert!(matches!(batch.next_request(), BatchRequest::Rename { .. }));
    batch.on_rename(Err(SyncError::Io("permission denied".to_string())));
    match batch.next_request() {
        BatchRequest::Finished { result } => {
            assert_eq!(result, Err(SyncError::Io("permission denied".to_string())));
        }
        _ => panic!("a failed rename must abort the batch"),
    }
}

#[test]
fn rename_disabled_leaves_stale_entry() {
    let groups = GroupCache::new();
    let c = chapter(CHAPTER_ID, "3", Some("NewTitle"));
    let mut batch = sync_chapters(&vec![c], &groups, false, false, false).unwrap();
    batch.on_stat(PathStat::NotFound);
    let stale = format!("OldTitle - {}.zip", CHAPTER_KEY);
    batch.on_scan(vec![DirEntryInfo { name: stale, is_dir: false }]);
    match batch.next_request() {
        BatchRequest::Finished { result } => assert_eq!(result, Ok(())),
        _ => panic!("the stale entry must be skipped untouched"),
    }
}

#[test]
fn continue_on_error_isolates_one_failure() {
    // Item 2 of 3 fails after its retries; items 1 and 3 are still
    // processed, and the failure is reported without aborting the batch.
    let ids = [
        "00000000-0000-0000-0000-000000000001",
        "00000000-0000-0000-0000-000000000002",
        "00000000-0000-0000-0000-000000000003",
    ];
    let groups = GroupCache::new();
    let chapters: Vec<Chapter> =
        ids.iter().map(|id| chapter(id, "1", Some("T"))).collect();
    let mut batch = sync_chapters(&chapters, &groups, false, true, true).unwrap();
    let mut downloads = Vec::new();
    let mut item = 0;
    loop {
        match batch.next_request() {
            BatchRequest::Stat { .. } => batch.on_stat(PathStat::NotFound),
            BatchRequest::Scan => batch.on_scan(Vec::new()),
            BatchRequest::Download { chapter_id, .. } => {
                downloads.push(chapter_id.clone());
                item += 1;
                if item == 2 {
                    batch.on_download(Err(SyncError::EmptyBody));
                } else {
                    batch.on_download(Ok(()));
                }
            }
            BatchRequest::Rename { .. } => panic!("nothing to rename"),
            BatchRequest::Finished { result } => {
                assert_eq!(result, Ok(()));
                break;
            }
        }
    }
    assert_eq!(downloads, ids.iter().map(|s| s.to_string()).collect::<Vec<_>>());
    assert_eq!(batch.failures.len(), 1);
    assert_eq!(batch.failures[0].0, ids[1]);
    assert_eq!(batch.failures[0].1, SyncError::EmptyBody);
}

#[test]
fn without_continue_on_error_batch_stops_at_failure() {
    let ids = [
        "00000000-0000-0000-0000-000000000001",
        "00000000-0000-0000-0000-000000000002",
        "00000000-0000-0000-0000-000000000003",
    ];
    let groups = GroupCache::new();
    let chapters: Vec<Chapter> =
        ids.iter().map(|id| chapter(id, "1", Some("T"))).collect();
    let mut batch = sync_chapters(&chapters, &groups, false, true, false).unwrap();
    let mut downloads = 0;
    loop {
        match batch.next_request() {
            BatchRequest::Stat { .. } => batch.on_stat(PathStat::NotFound),
            BatchRequest::Scan => batch.on_scan(Vec::new()),
            BatchRequest::Download { .. } => {
                downloads += 1;
                if downloads == 2 {
                    batch.on_download(Err(SyncError::EmptyBody));
                } else {
                    batch.on_download(Ok(()));
                }
            }
            BatchRequest::Rename { .. } => panic!("nothing to rename"),
            BatchRequest::Finished { result } => {
                assert_eq!(result, Err(SyncError::EmptyBody));
                break;
            }
        }
    }
    assert_eq!(downloads, 2);
}

#[test]
fn directory_is_scanned_at_most_once_per_batch() {
    let ids = [
        "00000000-0000-0000-0000-000000000001",
        "00000000-0000-0000-0000-000000000002",
    ];
    let groups = GroupCache::new();
    let chapters: Vec<Chapter> =
        ids.iter().map(|id| chapter(id, "1", Some("T"))).collect();
    let mut batch = sync_chapters(&chapters, &groups, false, true, true).unwrap();
    let mut scans = 0;
    loop {
        match batch.next_request() {
            BatchRequest::Stat { .. } => batch.on_stat(PathStat::NotFound),
            BatchRequest::Scan => {
                scans += 1;
                batch.on_scan(Vec::new());
            }
            BatchRequest::Download { .. } => batch.on_download(Ok(())),
            BatchRequest::Rename { .. } => panic!("nothing to rename"),
            BatchRequest::Finished { .. } => break,
        }
    }
    assert_eq!(scans, 1);
}

#[test]
fn existing_chapter_is_skipped() {
    let groups = GroupCache::new();
    let c = chapter(CHAPTER_ID, "1", Some("T"));
    let mut batch = sync_chapters(&vec![c], &groups, false, true, false).unwrap();
    batch.on_stat(PathStat::Found { is_dir: false });
    match batch.next_request() {
        BatchRequest::Finished { result } => assert_eq!(result, Ok(())),
        _ => panic!("an existing chapter must be skipped"),
    }
}

#[test]
fn tampered_path_kind_aborts_batch() {
    let groups = GroupCache::new();
    let c = chapter(CHAPTER_ID, "1", Some("T"));
    let mut batch = sync_chapters(&vec![c], &groups, false, true, true).unwrap();
    batch.on_stat(PathStat::Found { is_dir: true });
    match batch.next_request() {
        BatchRequest::Finished { result } => assert_eq!(result, Err(SyncError::KindMismatch)),
        _ => panic!("a kind mismatch must abort the batch"),
    }
}

#[test]
fn invalid_chapter_id_aborts_preparation() {
    let groups = GroupCache::new();
    let c = chapter("garbage", "1", Some("T"));
    assert!(matches!(
        sync_chapters(&vec![c], &groups, false, true, true),
        Err(SyncError::InvalidIdentity)
    ));
}

#[test]
fn single_chapter_batch_never_continues_on_error() {
    let groups = GroupCache::new();
    let c = chapter(CHAPTER_ID, "7", None);
    let mut batch = sync_single_chapter(&c, &groups, false, true).unwrap();
    batch.on_stat(PathStat::NotFound);
    batch.on_scan(Vec::new());
    match batch.next_request() {
        BatchRequest::Download { path, .. } => {
            assert_eq!(path, format!("Ch. 7 - {}.zip", CHAPTER_KEY));
        }
        _ => panic!("the single chapter must be downloaded"),
    }
    batch.on_download(Err(SyncError::NoPages));
    match batch.next_request() {
        BatchRequest::Finished { result } => assert_eq!(result, Err(SyncError::NoPages)),
        _ => panic!("a single-chapter failure must surface"),
    }
}

#[test]
fn manga_id_taken_from_first_manga_relationship() {
    let c = Chapter {
        id: CHAPTER_ID.to_string(),
        attributes: attrs(None, Some("1"), None),
        relationships: vec![
            Relationship {
                id: "g1".to_string(),
                type_field: "scanlation_group".to_string(),
            },
            Relationship { id: "m1".to_string(), type_field: "manga".to_string() },
            Relationship { id: "m2".to_string(), type_field: "manga".to_string() },
        ],
    };
    assert_eq!(manga_id_of(&c), Ok("m1".to_string()));
}

#[test]
fn chapter_without_manga_relationship_fails() {
    let c = chapter(CHAPTER_ID, "1", None);
    assert_eq!(manga_id_of(&c), Err(SyncError::MissingManga));
}

#[test]
fn groups_in_chapter_keeps_relationship_order() {
    let c = Chapter {
        id: CHAPTER_ID.to_string(),
        attributes: attrs(None, Some("1"), None),
        relationships: vec![
            Relationship { id: "g2".to_string(), type_field: "scanlation_group".to_string() },
            Relationship { id: "m1".to_string(), type_field: "manga".to_string() },
            Relationship { id: "g1".to_string(), type_field: "scanlation_group".to_string() },
        ],
    };
    assert_eq!(groups_in_chapter(&c), vec!["g2".to_string(), "g1".to_string()]);
}

#[test]
fn group_cache_dedups_misses_and_merges_once() {
    let mut cache = GroupCache::new();
    cache.insert_all(vec![("g1".to_string(), "Alpha".to_string())]);
    let wanted = vec![
        "g1".to_string(),
        "g2".to_string(),
        "g2".to_string(),
        "g3".to_string(),
    ];
    let missing = cache.missing_ids(&wanted);
    assert_eq!(missing, vec!["g2".to_string(), "g3".to_string()]);
    cache.insert_all(vec![
        ("g2".to_string(), "Beta".to_string()),
        ("g3".to_string(), "Gamma".to_string()),
        ("g1".to_string(), "Usurper".to_string()),
    ]);
    assert_eq!(cache.find("g1"), Some("Alpha".to_string()));
    assert_eq!(cache.find("g2"), Some("Beta".to_string()));
    assert_eq!(cache.find("g3"), Some("Gamma".to_string()));
    assert_eq!(cache.find("g4"), None);
    assert_eq!(cache.missing_ids(&wanted), Vec::<String>::new());
}

#[test]
fn insert_all_first_fetched_pair_wins() {
    let mut cache = GroupCache::new();
    cache.insert_all(vec![
        ("g".to_string(), "First".to_string()),
        ("g".to_string(), "Second".to_string()),
    ]);
    assert_eq!(cache.find("g"), Some("First".to_string()));
}

#[test]
fn chapter_filename_includes_group_names() {
    let mut cache = GroupCache::new();
    cache.insert_all(vec![
        ("g1".to_string(), "Alpha".to_string()),
        ("g2".to_string(), "Beta".to_string()),
    ]);
    let c = Chapter {
        id: CHAPTER_ID.to_string(),
        attributes: attrs(Some("2"), Some("15"), Some("The Title")),
        relationships: vec![
            Relationship { id: "g1".to_string(), type_field: "scanlation_group".to_string() },
            Relationship { id: "g2".to_string(), type_field: "scanlation_group".to_string() },
        ],
    };
    let mut batch = sync_chapters(&vec![c], &cache, false, true, false).unwrap();
    match batch.next_request() {
        BatchRequest::Stat { path } => {
            assert_eq!(path, format!("Vol. 2 Ch. 15 The Title [Alpha, Beta] - {}.zip", CHAPTER_KEY));
        }
        _ => panic!("first request must be a stat"),
    }
}

#[test]
fn plan_dir_covers_every_verdict() {
    assert_eq!(plan_dir(FindResult::Missing, true), DirAction::Create);
    assert_eq!(plan_dir(FindResult::AlreadyExists, true), DirAction::UseExisting);
    assert_eq!(
        plan_dir(FindResult::RenameCandidate("old".to_string()), true),
        DirAction::Rename { from: "old".to_string() }
    );
    assert_eq!(
        plan_dir(FindResult::RenameCandidate("old".to_string()), false),
        DirAction::UseStale { path: "old".to_string() }
    );
}

#[test]
fn sync_manga_builds_directory_name() {
    let dir = sync_manga(CHAPTER_ID, &Some("A Story: Part 2".to_string()), false).unwrap();
    assert_eq!(dir, format!("A Story: Part 2 - {}", CHAPTER_KEY));
}

#[test]
fn sync_manga_without_title_fails() {
    assert_eq!(sync_manga(CHAPTER_ID, &None, false), Err(SyncError::MissingTitle));
}

#[test]
fn sync_manga_with_bad_id_fails() {
    assert_eq!(
        sync_manga("nope", &Some("T".to_string()), false),
        Err(SyncError::InvalidIdentity)
    );
}

#[test]
fn english_or_first_prefers_english() {
    let s = LocalizedString {
        entries: vec![
            ("ja".to_string(), "日本語の題".to_string()),
            ("en".to_string(), "The Title".to_string()),
        ],
    };
    assert_eq!(english_or_first(&s), Some("The Title".to_string()));
}

#[test]
fn english_or_first_falls_back_to_first() {
    let s = LocalizedString {
        entries: vec![
            ("ja".to_string(), "日本語の題".to_string()),
            ("fr".to_string(), "Le Titre".to_string()),
        ],
    };
    assert_eq!(english_or_first(&s), Some("日本語の題".to_string()));
    let empty = LocalizedString { entries: Vec::new() };
    assert_eq!(english_or_first(&empty), None);
}

#[test]
fn pagination_walks_in_page_steps() {
    let mut p = Pagination::new();
    assert!(p.has_more());
    assert_eq!(p.record_page(PAGE_SIZE, 250), Ok(()));
    assert!(p.has_more());
    assert_eq!(p.record_page(PAGE_SIZE, 250), Ok(()));
    assert!(p.has_more());
    assert_eq!(p.record_page(50, 250), Ok(()));
    assert!(!p.has_more());
}

#[test]
fn short_page_with_entries_owed_is_pagination_error() {
    let mut p = Pagination::new();
    assert_eq!(p.record_page(PAGE_SIZE, 300), Ok(()));
    assert_eq!(p.record_page(70, 300), Err(SyncError::Pagination));
}

#[test]
fn filter_drops_external_and_blocked_chapters() {
    let mut kept = chapter("00000000-0000-0000-0000-000000000001", "1", None);
    kept.relationships.push(Relationship {
        id: "good".to_string(),
        type_field: "scanlation_group".to_string(),
    });
    let mut external = chapter("00000000-0000-0000-0000-000000000002", "2", None);
    external.attributes.external_url = Some("https://elsewhere.example".to_string());
    let mut blocked = chapter("00000000-0000-0000-0000-000000000003", "3", None);
    blocked.relationships.push(Relationship {
        id: "banned".to_string(),
        type_field: "scanlation_group".to_string(),
    });
    let page = vec![kept, external, blocked];
    let blocked_ids = vec!["banned".to_string()];
    let out = filter_chapters(page, &blocked_ids);
    assert_eq!(out.len(), 1);
    assert_eq!(out[0].id, "00000000-0000-0000-0000-000000000001");
}
