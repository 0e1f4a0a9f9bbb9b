use manga_syncer::closing::{close, ClosingFlag};
use manga_syncer::errors::SyncError;
use manga_syncer::fetch::{FetchStep, PageFetch};
use manga_syncer::pipeline::{order_entries, page_filename, plan_pages, PagePlan};

#[test]
fn page_filename_zero_pads_to_three_digits() {
    assert_eq!(page_filename(1, "x1.png").unwrap(), "001.png");
    assert_eq!(page_filename(12, "x.jpeg").unwrap(), "012.jpeg");
    assert_eq!(page_filename(345, "a.b.gif").unwrap(), "345.gif");
    assert_eq!(page_filename(1000, "p.png").unwrap(), "1000.png");
}

#[test]
fn page_filename_without_extension_fails() {
    assert_eq!(page_filename(1, "noext"), Err(SyncError::MissingExtension));
    assert_eq!(page_filename(1, ".png"), Err(SyncError::MissingExtension));
    assert_eq!(page_filename(1, ""), Err(SyncError::MissingExtension));
}

#[test]
fn page_filename_extension_never_spans_a_separator() {
    // The extension comes from the final path component, as the original
    // read it off the path: a dot in an earlier component does not count.
    assert_eq!(page_filename(1, "a.b/c"), Err(SyncError::MissingExtension));
    assert_eq!(page_filename(1, "dir/.png"), Err(SyncError::MissingExtension));
    assert_eq!(page_filename(1, "dir.d/file"), Err(SyncError::MissingExtension));
    assert_eq!(page_filename(1, "dir.d/file.png").unwrap(), "001.png");
    assert_eq!(page_filename(1, "dir/x.png").unwrap(), "001.png");
}

#[test]
fn plan_pages_names_every_page_in_order() {
    let locators = vec!["01.png".to_string(), "02.png".to_string()];
    match plan_pages(&locators, false).unwrap() {
        PagePlan::Fetch(names) => {
            assert_eq!(names, vec!["001.png".to_string(), "002.png".to_string()]);
        }
        PagePlan::Skip => panic!("two pages must be fetched"),
    }
}

#[test]
fn plan_pages_empty_not_external_is_no_pages() {
    let locators: Vec<String> = Vec::new();
    assert!(matches!(plan_pages(&locators, false), Err(SyncError::NoPages)));
}

#[test]
fn plan_pages_empty_external_is_intentional_skip() {
    let locators: Vec<String> = Vec::new();
    assert!(matches!(plan_pages(&locators, true), Ok(PagePlan::Skip)));
}

#[test]
fn plan_pages_missing_extension_aborts() {
    let locators = vec!["01.png".to_string(), "bare".to_string()];
    assert!(matches!(plan_pages(&locators, false), Err(SyncError::MissingExtension)));
}

#[test]
fn entries_sorted_regardless_of_completion_order() {
    let completed = vec![
        "003.png".to_string(),
        "001.png".to_string(),
        "004.jpg".to_string(),
        "002.png".to_string(),
    ];
    let ordered = order_entries(completed);
    assert_eq!(
        ordered,
        vec![
            "001.png".to_string(),
            "002.png".to_string(),
            "003.png".to_string(),
            "004.jpg".to_string(),
        ]
    );
}

#[test]
fn entries_of_reversed_completion_match_plan() {
    let locators: Vec<String> = (1..=12).map(|i| format!("p{}.png", i)).collect();
    let planned = match plan_pages(&locators, false).unwrap() {
        PagePlan::Fetch(names) => names,
        PagePlan::Skip => panic!("pages expected"),
    };
    let mut shuffled = planned.clone();
    shuffled.reverse();
    assert_eq!(order_entries(shuffled), planned);
}

#[test]
fn empty_body_retried_three_more_times_then_last_error() {
    let flag = ClosingFlag::new();
    let mut fetch = PageFetch::new();
    for _ in 0..3 {
        assert_eq!(fetch.next_step(&flag), FetchStep::Issue);
        fetch.record_attempt(Ok(0));
    }
    assert_eq!(fetch.next_step(&flag), FetchStep::Issue);
    fetch.record_attempt(Err(SyncError::Transient("connection reset".to_string())));
    assert_eq!(
        fetch.next_step(&flag),
        FetchStep::Finished(Err(SyncError::Transient("connection reset".to_string())))
    );
}

#[test]
fn all_empty_bodies_fail_with_empty_body() {
    let flag = ClosingFlag::new();
    let mut fetch = PageFetch::new();
    let mut issued = 0;
    loop {
        match fetch.next_step(&flag) {
            FetchStep::Issue => {
                issued += 1;
                fetch.record_attempt(Ok(0));
            }
            FetchStep::Finished(result) => {
                assert_eq!(result, Err(SyncError::EmptyBody));
                break;
            }
        }
        assert!(issued <= 4);
    }
    assert_eq!(issued, 4);
}

#[test]
fn fetch_succeeds_after_transient_failures() {
    let flag = ClosingFlag::new();
    let mut fetch = PageFetch::new();
    fetch.record_attempt(Err(SyncError::Transient("timeout".to_string())));
    assert_eq!(fetch.next_step(&flag), FetchStep::Issue);
    fetch.record_attempt(Ok(52341));
    assert_eq!(fetch.next_step(&flag), FetchStep::Finished(Ok(())));
}

#[test]
fn closed_flag_short_circuits_fetch() {
    let mut flag = ClosingFlag::new();
    let fetch = PageFetch::new();
    assert_eq!(fetch.next_step(&flag), FetchStep::Issue);
    assert!(close(&mut flag));
    assert_eq!(fetch.next_step(&flag), FetchStep::Finished(Err(SyncError::Closed)));
}

#[test]
fn close_reports_only_first_call() {
    let mut flag = ClosingFlag::new();
    assert!(manga_syncer::closing::err_if_closed(&flag).is_ok());
    assert!(close(&mut flag));
    assert!(!close(&mut flag));
    assert_eq!(manga_syncer::closing::err_if_closed(&flag), Err(SyncError::Closed));
}
